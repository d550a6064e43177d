use chip8::errors::Error;
use chip8::stack::{Stack, STACK_SIZE};

#[test]
fn stack_sixteen_pushes_then_overflow() {
    let mut s = Stack::new();
    for k in 0..STACK_SIZE as u16 {
        assert!(s.push(0x200 + k).is_ok());
    }
    assert_eq!(s.push(0xBEE), Err(Error::StackOverflowError));
}

#[test]
fn stack_pop_empty_underflows() {
    let mut s = Stack::new();
    assert_eq!(s.pop(), Err(Error::StackUnderflowError));
}

#[test]
fn stack_pop_returns_last_pushed() {
    let mut s = Stack::new();
    s.push(0x111).unwrap();
    s.push(0x222).unwrap();
    assert_eq!(s.pop(), Ok(0x222));
    assert_eq!(s.pop(), Ok(0x111));
    assert_eq!(s.pop(), Err(Error::StackUnderflowError));
}

#[test]
fn stack_reset_empties() {
    let mut s = Stack::new();
    s.push(0x123).unwrap();
    s.reset();
    assert_eq!(s.pop(), Err(Error::StackUnderflowError));
    assert!(s.push(0x456).is_ok());
    assert_eq!(s.pop(), Ok(0x456));
}
