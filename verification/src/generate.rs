use vstd::prelude::*;
use vstd::utf8::{encode_utf8, is_ascii_chars, is_ascii_chars_encode_utf8};
use crate::property::spec_input_in_domain;
use crate::text::push_char;

verus! {

/// The characters that random inputs are drawn from: the characters of TOML
/// syntax, so that random inputs often hit the shapes that trip a parser.
pub open spec fn toml_alphabet() -> Seq<char> {
    seq![
        'a', 'b', 'c', 'x', 'y', 'z', '0', '1', '2', '_', '-', '.', '=', ' ', '[', ']', '{', '}',
        '\n', '\t', ',', '(', ')', '"', '\'', '\\', ':', '#',
    ]
}

/// The string that a generated byte vector stands for: byte `b` becomes the
/// alphabet character at position `b` modulo the alphabet's length.
pub open spec fn spec_bytes_to_toml(bytes: Seq<u8>) -> Seq<char> {
    Seq::new(bytes.len(), |i: int| toml_alphabet()[bytes[i] as int % toml_alphabet().len() as int])
}

/// The alphabet as a vector.
fn toml_alphabet_vec() -> (v: Vec<char>)
    ensures
        v@ == toml_alphabet(),
{
    let v: Vec<char> = vec![
        'a', 'b', 'c', 'x', 'y', 'z', '0', '1', '2', '_', '-', '.', '=', ' ', '[', ']', '{', '}',
        '\n', '\t', ',', '(', ')', '"', '\'', '\\', ':', '#',
    ];
    assert(v@ =~= toml_alphabet());
    v
}

/// Maps generated bytes to a TOML-flavoured string, one character per byte.
pub fn bytes_to_toml_str(bytes: &[u8]) -> (s: String)
    ensures
        s@ == spec_bytes_to_toml(bytes@),
        s@.len() == bytes@.len(),
        forall|i: int| 0 <= i < bytes@.len() ==> #[trigger] s@[i] == "abcxyz012_-.= []{}\n\t,()\"'\\:#"@[bytes@[i] as int % 28],
{
    let alphabet = toml_alphabet_vec();
    let mut s = String::new();
    let mut i: usize = 0;
    while i < bytes.len()
        invariant
            alphabet@ == toml_alphabet(),
            0 <= i <= bytes@.len(),
            s@ == spec_bytes_to_toml(bytes@.take(i as int)),
        decreases bytes@.len() - i,
    {
        let k: usize = (bytes[i] as usize) % alphabet.len();
        push_char(&mut s, alphabet[k]);
        assert(s@ =~= spec_bytes_to_toml(bytes@.take(i + 1)));
        i = i + 1;
    }
    assert(bytes@.take(bytes@.len() as int) =~= bytes@);
    proof {
        lemma_alphabet_is_toml_syntax();
    }
    s
}

/// Law: every generated string is ASCII, drawn from the alphabet, and its
/// UTF-8 encoding is exactly as long as the byte vector it came from; so it
/// lies in the properties' domain exactly when that vector has at most
/// `MAX_INPUT_BYTES` bytes.
pub proof fn lemma_generated_strings(bytes: Seq<u8>)
    ensures
        spec_bytes_to_toml(bytes).len() == bytes.len(),
        forall|i: int| 0 <= i < bytes.len() ==> toml_alphabet().contains(#[trigger] spec_bytes_to_toml(bytes)[i]),
        is_ascii_chars(spec_bytes_to_toml(bytes)),
        encode_utf8(spec_bytes_to_toml(bytes)).len() == bytes.len(),
        spec_input_in_domain(spec_bytes_to_toml(bytes)) <==> bytes.len() <= crate::property::MAX_INPUT_BYTES,
{
    let a = toml_alphabet();
    let s = spec_bytes_to_toml(bytes);
    assert forall|k: int| 0 <= k < a.len() implies '\0' <= #[trigger] a[k] <= '\u{7f}' by {}
    assert forall|i: int| 0 <= i < bytes.len() implies a.contains(#[trigger] s[i]) by {
        let k: int = bytes[i] as int % a.len() as int;
        assert(s[i] == a[k]);
    }
    assert forall|i: int| 0 <= i < s.len() implies '\0' <= #[trigger] s[i] <= '\u{7f}' by {
        let k: int = bytes[i] as int % a.len() as int;
        assert(s[i] == a[k]);
    }
    is_ascii_chars_encode_utf8(s);
}


/// Law: the alphabet is exactly the 28 characters of TOML syntax
/// `abcxyz012_-.= []{}`, newline, tab, `,()"'\\:#`, in that order, each once;
/// so every character of it, the key/value separator `=` among them (at
/// position 12), is produced by one byte value in 28.
pub proof fn lemma_alphabet_is_toml_syntax()
    ensures
        toml_alphabet() == "abcxyz012_-.= []{}\n\t,()\"'\\:#"@,
        toml_alphabet().len() == 28,
        forall|i: int, j: int| 0 <= i < j < 28 ==> toml_alphabet()[i] != toml_alphabet()[j],
        toml_alphabet()[12] == '=',
{
    reveal_strlit("abcxyz012_-.= []{}\n\t,()\"'\\:#");
    assert(toml_alphabet() =~= "abcxyz012_-.= []{}\n\t,()\"'\\:#"@);
}

} // verus!
