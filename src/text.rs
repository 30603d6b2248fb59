use vstd::prelude::*;
use vstd::utf8::{decode_utf8, valid_utf8};

verus! {

/// The characters of `s`, in order.
pub(crate) fn chars_of(s: &str) -> (r: Vec<char>)
    ensures
        r@ == s@,
{
    broadcast use vstd::string::axiom_spec_iter;

    let mut r: Vec<char> = Vec::new();
    for c in it: s.chars()
        invariant
            it.seq() == s@,
            r.len() == it.index(),
            forall|i: int| 0 <= i < r.len() ==> r@[i] == it.seq()[i],
    {
        r.push(c);
    }
    assert(r@ =~= s@);
    r
}

/// Relies on `String: FromIterator<&char>`: a string made of these characters, in order.
#[verifier::external_body]
pub(crate) fn string_of(cs: &[char]) -> (r: String)
    ensures
        r@ == cs@,
{
    cs.iter().collect()
}

/// Relies on `String::from_utf8`: it succeeds exactly on valid UTF-8, and the string holds
/// the characters that the bytes encode.
#[verifier::external_body]
pub(crate) fn decode_text(bytes: Vec<u8>) -> (r: Option<String>)
    ensures
        r is Some <==> valid_utf8(bytes@),
        r matches Some(s) ==> s@ == decode_utf8(bytes@),
{
    match String::from_utf8(bytes) {
        Ok(s) => Some(s),
        Err(_) => None,
    }
}

/// The screen-clear request `ESC [ H ESC [ 2 J` starts at index `i` of `s`.
pub open spec fn clear_at(s: Seq<char>, i: int) -> bool {
    0 <= i && i + 7 <= s.len() && s.subrange(i, i + 7) == seq!['\x1b', '[', 'H', '\x1b', '[', '2', 'J']
}

/// Index `i` of `s` holds a form feed or starts the clear sequence.
pub open spec fn clear_request_at(s: Seq<char>, i: int) -> bool {
    s[i] == '\x0c' || clear_at(s, i)
}

/// `s` asks for the screen to be cleared: it holds a form feed or the clear sequence.
pub open spec fn has_clear_request(s: Seq<char>) -> bool {
    exists|i: int| 0 <= i < s.len() && #[trigger] clear_request_at(s, i)
}

/// A line with one trailing carriage return taken off.
pub open spec fn strip_cr(line: Seq<char>) -> Seq<char> {
    if line.len() > 0 && line.last() == '\r' {
        line.drop_last()
    } else {
        line
    }
}

/// Reading `s` from the left: the lines ended so far, and the unfinished tail.
pub open spec fn line_scan(s: Seq<char>) -> (Seq<Seq<char>>, Seq<char>)
    decreases s.len(),
{
    if s.len() == 0 {
        (Seq::empty(), Seq::empty())
    } else {
        let prev = line_scan(s.drop_last());
        if s.last() == '\n' {
            (prev.0.push(strip_cr(prev.1)), Seq::empty())
        } else {
            (prev.0, prev.1.push(s.last()))
        }
    }
}

/// The lines of `s`: split at each `\n` (a `\r` just before it is dropped); a final
/// line without a terminator counts when it is not empty.
pub open spec fn split_lines(s: Seq<char>) -> Seq<Seq<char>> {
    let (done, rest) = line_scan(s);
    if rest.len() == 0 {
        done
    } else {
        done.push(rest)
    }
}

/// The pieces joined with a single `\n` between neighbours.
pub open spec fn join_lines(p: Seq<Seq<char>>) -> Seq<char>
    decreases p.len(),
{
    if p.len() == 0 {
        Seq::empty()
    } else if p.len() == 1 {
        p[0]
    } else {
        join_lines(p.drop_last()) + seq!['\n'] + p.last()
    }
}

fn clear_sequence_at(v: &Vec<char>, i: usize) -> (r: bool)
    requires
        i < v@.len(),
    ensures
        r == clear_at(v@, i as int),
{
    let ghost pattern = seq!['\x1b', '[', 'H', '\x1b', '[', '2', 'J'];
    if v.len() - i < 7 {
        return false;
    }
    let r = v[i] == '\x1b' && v[i + 1] == '[' && v[i + 2] == 'H' && v[i + 3] == '\x1b'
        && v[i + 4] == '[' && v[i + 5] == '2' && v[i + 6] == 'J';
    proof {
        let sub = v@.subrange(i as int, i as int + 7);
        if r {
            assert(sub =~= pattern);
        } else if sub == pattern {
            assert(sub[0] == v@[i as int] && sub[1] == v@[i + 1] && sub[2] == v@[i + 2]);
            assert(sub[3] == v@[i + 3] && sub[4] == v@[i + 4] && sub[5] == v@[i + 5]);
            assert(sub[6] == v@[i + 6]);
        }
    }
    r
}

/// Whether the text asks for the screen to be cleared.
pub fn contains_clear_request(v: &Vec<char>) -> (r: bool)
    ensures
        r == has_clear_request(v@),
{
    let mut i: usize = 0;
    while i < v.len()
        invariant
            i <= v@.len(),
            forall|j: int| 0 <= j < i ==> !#[trigger] clear_request_at(v@, j),
        decreases v@.len() - i,
    {
        if v[i] == '\x0c' || clear_sequence_at(v, i) {
            assert(clear_request_at(v@, i as int));
            return true;
        }
        i = i + 1;
    }
    false
}

} // verus!
