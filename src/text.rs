use vstd::prelude::*;
use vstd::std_specs::iter::IteratorSpec;

verus! {

broadcast use vstd::string::group_string_axioms;

/// Relies on `String::push`: appends one character.
#[verifier::external_body]
pub(crate) fn push_char(s: &mut String, c: char)
    ensures
        final(s)@ == old(s)@.push(c),
{
    s.push(c);
}

/// The characters of `s`, in order.
pub fn chars_of(s: &str) -> (r: Vec<char>)
    ensures
        r@ == s@,
{
    let mut out: Vec<char> = Vec::new();
    let mut it = s.chars();
    loop
        invariant
            it.obeys_prophetic_iter_laws(),
            out@ + it.remaining() == s@,
        ensures
            out@ == s@,
        decreases s@.len() - out@.len(),
    {
        match it.next() {
            Some(c) => {
                out.push(c);
            },
            None => {
                assert(out@ + it.remaining() == out@);
                break;
            },
        }
    }
    out
}

/// Number of characters of `s` (one column per character).
pub fn str_width(s: &str) -> (r: usize)
    ensures
        r == s@.len(),
{
    s.unicode_len()
}

/// Number of characters of `s`.
pub fn str_length(s: &str) -> (r: usize)
    ensures
        r == s@.len(),
{
    s.unicode_len()
}

/// `n` copies of `c`.
pub open spec fn repeated(c: char, n: nat) -> Seq<char> {
    Seq::new(n, |i: int| c)
}

/// `s` followed by spaces up to `n` characters; unchanged if no shorter.
pub open spec fn padded_left(s: Seq<char>, n: nat) -> Seq<char> {
    if s.len() < n {
        s + repeated(' ', (n - s.len()) as nat)
    } else {
        s
    }
}

/// Spaces up to `n` characters followed by `s`; unchanged if no shorter.
pub open spec fn padded_right(s: Seq<char>, n: nat) -> Seq<char> {
    if s.len() < n {
        repeated(' ', (n - s.len()) as nat) + s
    } else {
        s
    }
}

/// `s` made exactly `n` characters long: padded on the right, or cut.
pub open spec fn fitted(s: Seq<char>, n: nat) -> Seq<char> {
    if s.len() <= n {
        padded_left(s, n)
    } else {
        s.take(n as int)
    }
}

/// Appends `n` copies of `c` to `s`.
pub(crate) fn push_repeated(s: &mut String, c: char, n: usize)
    ensures
        final(s)@ == old(s)@ + repeated(c, n as nat),
{
    let ghost start = s@;
    let mut i: usize = 0;
    while i < n
        invariant
            i <= n,
            s@ == start + repeated(c, i as nat),
        decreases n - i,
    {
        push_char(s, c);
        i += 1;
        assert(s@ =~= start + repeated(c, i as nat));
    }
}

/// Appends the characters of `cs` in `from..to` to `s`.
pub(crate) fn push_range(s: &mut String, cs: &Vec<char>, from: usize, to: usize)
    requires
        from <= to <= cs@.len(),
    ensures
        final(s)@ == old(s)@ + cs@.subrange(from as int, to as int),
{
    let ghost start = s@;
    let mut i = from;
    while i < to
        invariant
            from <= i <= to <= cs@.len(),
            s@ == start + cs@.subrange(from as int, i as int),
        decreases to - i,
    {
        push_char(s, cs[i]);
        i += 1;
        assert(s@ =~= start + cs@.subrange(from as int, i as int));
    }
}

/// `s` left-aligned in a field of `final_length` characters.
pub fn pad_align_left(s: &str, final_length: usize) -> (r: String)
    ensures
        r@ == padded_left(s@, final_length as nat),
{
    let len = s.unicode_len();
    let mut r = String::from_str(s);
    if len < final_length {
        push_repeated(&mut r, ' ', final_length - len);
    }
    r
}

/// `s` right-aligned in a field of `final_length` characters.
pub fn pad_align_right(s: &str, final_length: usize) -> (r: String)
    ensures
        r@ == padded_right(s@, final_length as nat),
{
    let len = s.unicode_len();
    let mut r = String::new();
    if len < final_length {
        push_repeated(&mut r, ' ', final_length - len);
    }
    r.append(s);
    r
}

/// `s` in exactly `final_length` columns: padded with spaces, or cut at the end.
pub fn fit_to_length(s: &str, final_length: usize) -> (r: String)
    ensures
        r@ == fitted(s@, final_length as nat),
        r@.len() == final_length,
{
    let cs = chars_of(s);
    if cs.len() <= final_length {
        pad_align_left(s, final_length)
    } else {
        let mut r = String::new();
        push_range(&mut r, &cs, 0, final_length);
        assert(r@ =~= s@.take(final_length as int));
        r
    }
}

} // verus!
