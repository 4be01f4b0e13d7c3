//! Building and taking apart short texts.
use vstd::prelude::*;
use vstd::string::{StrSliceExecFns, StringExecFns};
use vstd::utf8::encode_utf8;

verus! {

/// The decimal digit `d`.
pub open spec fn digit(d: int) -> char {
    (48 + d) as char
}

/// A number in decimal notation, without leading zeros.
pub open spec fn decimal(n: nat) -> Seq<char>
    decreases n,
{
    if n < 10 {
        seq![digit(n as int)]
    } else {
        decimal(n / 10).push(digit((n % 10) as int))
    }
}

/// A number in decimal notation, with a sign if it is negative.
pub open spec fn signed_decimal(n: int) -> Seq<char> {
    if n < 0 {
        seq!['-'] + decimal((-n) as nat)
    } else {
        decimal(n as nat)
    }
}

/// What is left of `text` behind `prefix`, if it begins with it.
pub open spec fn after_prefix(text: Seq<char>, prefix: Seq<char>) -> Option<Seq<char>> {
    if prefix.len() <= text.len() && text.take(prefix.len() as int) == prefix {
        Some(text.skip(prefix.len() as int))
    } else {
        None
    }
}

/// Whether `a` comes before `b` in the lexicographic order of bytes.
pub open spec fn bytes_before(a: Seq<u8>, b: Seq<u8>) -> bool
    decreases a.len(),
{
    if b.len() == 0 {
        false
    } else if a.len() == 0 {
        true
    } else if a[0] != b[0] {
        a[0] < b[0]
    } else {
        bytes_before(a.skip(1), b.skip(1))
    }
}

/// Whether text `a` comes before text `b`: by the bytes of their UTF-8 forms.
pub open spec fn before(a: Seq<char>, b: Seq<char>) -> bool {
    bytes_before(encode_utf8(a), encode_utf8(b))
}

/// No bytes come before and after the same bytes at once.
pub proof fn lemma_bytes_before_asymmetric(a: Seq<u8>, b: Seq<u8>)
    ensures
        bytes_before(a, b) ==> !bytes_before(b, a),
    decreases a.len(),
{
    if a.len() > 0 && b.len() > 0 {
        lemma_bytes_before_asymmetric(a.skip(1), b.skip(1));
    }
}

/// What is not after `b`, which is not after `c`, is not after `c`.
pub proof fn lemma_not_after_transitive(a: Seq<u8>, b: Seq<u8>, c: Seq<u8>)
    requires
        !bytes_before(b, a),
        !bytes_before(c, b),
    ensures
        !bytes_before(c, a),
    decreases a.len(),
{
    if a.len() > 0 && b.len() > 0 && c.len() > 0 && a[0] == b[0] && b[0] == c[0] {
        lemma_not_after_transitive(a.skip(1), b.skip(1), c.skip(1));
    }
}

/// Whether the two texts are the same.
pub fn same(a: &str, b: &str) -> (r: bool)
    ensures
        r == (a@ == b@),
{
    a.to_owned() == b.to_owned()
}

fn digit_text(d: u32) -> (r: &'static str)
    requires
        d < 10,
    ensures
        r@ == seq![digit(d as int)],
{
    proof {
        reveal_strlit("0");
        reveal_strlit("1");
        reveal_strlit("2");
        reveal_strlit("3");
        reveal_strlit("4");
        reveal_strlit("5");
        reveal_strlit("6");
        reveal_strlit("7");
        reveal_strlit("8");
        reveal_strlit("9");
    }
    let r = match d {
        0 => "0",
        1 => "1",
        2 => "2",
        3 => "3",
        4 => "4",
        5 => "5",
        6 => "6",
        7 => "7",
        8 => "8",
        _ => "9",
    };
    assert(r@ =~= seq![digit(d as int)]);
    r
}

/// A number in decimal notation.
pub fn decimal_text(n: u32) -> (r: String)
    ensures
        r@ == decimal(n as nat),
    decreases n,
{
    if n < 10 {
        digit_text(n).to_owned()
    } else {
        let mut text: String = decimal_text(n / 10);
        text.append(digit_text(n % 10));
        assert(text@ =~= decimal(n as nat));
        text
    }
}

/// A number in decimal notation, with a sign if it is negative.
pub fn signed_decimal_text(n: i32) -> (r: String)
    ensures
        r@ == signed_decimal(n as int),
{
    if n < 0 {
        let mut text: String = "-".to_owned();
        let magnitude: i64 = -(n as i64);
        text.append(decimal_text(magnitude as u32).as_str());
        proof {
            reveal_strlit("-");
            assert("-"@ =~= seq!['-']);
        }
        text
    } else {
        decimal_text(n as u32)
    }
}

/// What is left of `text` behind `prefix`, if it begins with it.
pub fn strip_prefix(text: &str, prefix: &str) -> (r: Option<String>)
    ensures
        match r {
            Some(rest) => after_prefix(text@, prefix@) == Some(rest@),
            None => after_prefix(text@, prefix@) is None,
        },
{
    let text_len: usize = text.unicode_len();
    let prefix_len: usize = prefix.unicode_len();
    if prefix_len > text_len {
        return None;
    }
    let head: &str = text.substring_char(0, prefix_len);
    if same(head, prefix) {
        let rest: &str = text.substring_char(prefix_len, text_len);
        assert(rest@ =~= text@.skip(prefix@.len() as int));
        Some(rest.to_owned())
    } else {
        None
    }
}

/// Whether text `a` comes before text `b`.
pub fn comes_before(a: &str, b: &str) -> (r: bool)
    ensures
        r == before(a@, b@),
{
    let x: &[u8] = a.as_bytes();
    let y: &[u8] = b.as_bytes();
    let mut i: usize = 0;
    assert(x@.skip(0) =~= x@ && y@.skip(0) =~= y@);
    while i < x.len() && i < y.len()
        invariant
            i <= x@.len(),
            i <= y@.len(),
            bytes_before(x@, y@) == bytes_before(x@.skip(i as int), y@.skip(i as int)),
            x@ == encode_utf8(a@),
            y@ == encode_utf8(b@),
        decreases x.len() - i,
    {
        if x[i] != y[i] {
            return x[i] < y[i];
        }
        assert(x@.skip(i as int).skip(1) =~= x@.skip(i + 1));
        assert(y@.skip(i as int).skip(1) =~= y@.skip(i + 1));
        i = i + 1;
    }
    i < y.len()
}

} // verus!
