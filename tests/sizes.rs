use std::mem::size_of;

use rust_ifj22_compiler::token::Token;

const MAX_TOKEN_SIZE: usize = 32;

#[test]
fn test_token_size() {
    println!("Token size: {}", size_of::<Token>());
    assert!(size_of::<Token>() <= MAX_TOKEN_SIZE);
}
