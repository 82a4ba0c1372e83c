//! Small texts for the host's connectivity checks.

use vstd::prelude::*;
use vstd::string::StringExecFns;
use crate::text::{decimal, push_char, push_decimal, push_str};

verus! {

/// The host's echo of `input`: the text, its length in UTF-8 bytes, and the
/// text reversed char by char.
pub open spec fn echo_of(input: Seq<char>, byte_len: nat) -> Seq<char> {
    "Rust processed: "@ + input + " (length: "@ + decimal(byte_len) + ", reversed: "@ + input.reverse()
        + ")"@
}

/// The greeting the library sends to show that the host reaches it.
pub fn hello() -> (r: String)
    ensures
        r@ == "Hello from Rust! 🦀"@,
{
    String::from_str("Hello from Rust! 🦀")
}

/// Echoes `input` back with its length in bytes and reversed.
pub fn process_message(input: &str) -> (r: String)
    ensures
        r@ == echo_of(input@, input.len() as nat),
{
    let mut s = String::from_str("Rust processed: ");
    push_str(&mut s, input);
    push_str(&mut s, " (length: ");
    push_decimal(&mut s, input.len() as u64);
    push_str(&mut s, ", reversed: ");
    let n = input.unicode_len();
    let ghost before = s@;
    let mut i: usize = n;
    while i > 0
        invariant
            n == input@.len(),
            i <= n,
            s@ == before + input@.subrange(i as int, n as int).reverse(),
        decreases i,
    {
        let c = input.get_char(i - 1);
        push_char(&mut s, c);
        assert(input@.subrange(i - 1, n as int).reverse() =~= input@.subrange(i as int, n as int).reverse().push(c));
        i = i - 1;
    }
    assert(input@.subrange(0, n as int) =~= input@);
    push_str(&mut s, ")");
    assert(s@ =~= echo_of(input@, input.len() as nat));
    s
}

} // verus!
