//! Character- and line-level text model: leading-whitespace runs, the
//! strip policy applied to one line, joining lines with a newline
//! separator, and character-wise string comparison.

use vstd::prelude::*;

verus! {

/// The whitespace characters recognized in a leading-whitespace run.
pub open spec fn is_ws_char(c: char) -> bool {
    c == ' ' || c == '\t' || c == '\n' || c == '\r'
}

/// Whether `c` counts as whitespace; executable mirror of [`is_ws_char`].
pub fn is_ws(c: char) -> (b: bool)
    ensures
        b == is_ws_char(c),
{
    c == ' ' || c == '\t' || c == '\n' || c == '\r'
}

/// The length of the leading-whitespace run of `s`.
pub open spec fn ws_run(s: Seq<char>) -> nat
    decreases s.len(),
{
    if s.len() == 0 || !is_ws_char(s[0]) {
        0
    } else {
        (1 + ws_run(s.drop_first())) as nat
    }
}

/// The leading-whitespace run never reaches past the end of the line, every
/// character inside it is whitespace, and the character right after it, if
/// any, is not.
pub proof fn lemma_ws_run_stops(s: Seq<char>)
    ensures
        ws_run(s) <= s.len(),
        ws_run(s) < s.len() ==> !is_ws_char(s[ws_run(s) as int]),
        forall|j: int| 0 <= j < ws_run(s) ==> is_ws_char(s[j]),
    decreases s.len(),
{
    if s.len() > 0 && is_ws_char(s[0]) {
        lemma_ws_run_stops(s.drop_first());
        assert forall|j: int| 0 <= j < ws_run(s) implies is_ws_char(s[j]) by {
            if j > 0 {
                assert(s.drop_first()[j - 1] == s[j]);
            }
        }
    }
}

/// A count `n` that lies on whitespace throughout and ends at the line's end
/// or at a non-whitespace character is exactly the leading-whitespace run.
pub proof fn lemma_ws_run_is(s: Seq<char>, n: nat)
    requires
        n <= s.len(),
        forall|j: int| 0 <= j < n ==> is_ws_char(s[j]),
        n == s.len() || !is_ws_char(s[n as int]),
    ensures
        ws_run(s) == n,
    decreases s.len(),
{
    if s.len() == 0 {
    } else if !is_ws_char(s[0]) {
    } else {
        let t = s.drop_first();
        assert forall|j: int| 0 <= j < n - 1 implies is_ws_char(t[j]) by {
            assert(t[j] == s[j + 1]);
        }
        if n < s.len() {
            assert(t[n - 1] == s[n as int]);
        }
        lemma_ws_run_is(t, (n - 1) as nat);
    }
}

/// The length of the leading-whitespace run of `s`; mirror of [`ws_run`].
pub fn ws_run_exec(s: &str) -> (n: usize)
    ensures
        n == ws_run(s@),
{
    let len: usize = s.unicode_len();
    let mut i: usize = 0;
    while i < len && is_ws(s.get_char(i))
        invariant
            0 <= i <= len,
            len == s@.len(),
            forall|j: int| 0 <= j < i ==> is_ws_char(s@[j]),
        decreases len - i,
    {
        i = i + 1;
    }
    proof {
        lemma_ws_run_is(s@, i as nat);
    }
    i
}

/// How many leading characters the strip policy removes from a line whose
/// leading-whitespace run has length `run`: the whole run when the policy is
/// `None` ("all"), and at most `n` of it when the policy is `Some(n)`.
pub open spec fn strip_count(run: nat, strip: Option<usize>) -> nat {
    match strip {
        Option::None => run,
        Option::Some(n) => if run < n { run } else { n as nat },
    }
}

/// One line after the strip policy: the clamped part of the
/// leading-whitespace run is removed, everything else is untouched.
pub open spec fn stripped(s: Seq<char>, strip: Option<usize>) -> Seq<char> {
    s.skip(strip_count(ws_run(s), strip) as int)
}

/// Strip policy `Some(0)` is a no-op: the line is preserved as authored.
pub proof fn lemma_strip_zero_noop(s: Seq<char>)
    ensures
        stripped(s, Option::Some(0)) == s,
{
    assert(stripped(s, Option::Some(0)) =~= s);
}

/// The unbounded strip policy removes the entire leading-whitespace run of
/// every line, however long: what remains never starts with whitespace.
pub proof fn lemma_strip_all(s: Seq<char>)
    ensures
        stripped(s, Option::None) == s.skip(ws_run(s) as int),
        stripped(s, Option::None).len() == s.len() - ws_run(s),
        stripped(s, Option::None).len() > 0 ==> !is_ws_char(stripped(s, Option::None)[0]),
{
    lemma_ws_run_stops(s);
}

/// Applies the strip policy to one line, returning the remainder of the line.
pub fn strip_line<'a>(line: &'a str, strip: Option<usize>) -> (r: &'a str)
    ensures
        r@ == stripped(line@, strip),
{
    let run: usize = ws_run_exec(line);
    proof {
        lemma_ws_run_stops(line@);
    }
    let count: usize = match strip {
        Option::None => run,
        Option::Some(n) => if run < n { run } else { n },
    };
    let len: usize = line.unicode_len();
    line.substring_char(count, len)
}

/// `s` without its leading-whitespace run.
pub open spec fn skip_ws(s: Seq<char>) -> Seq<char> {
    s.skip(ws_run(s) as int)
}

/// Dropping the leading-whitespace run never lengthens a sequence.
pub proof fn lemma_skip_ws_len(s: Seq<char>)
    ensures
        skip_ws(s).len() == s.len() - ws_run(s),
        skip_ws(s).len() <= s.len(),
{
    lemma_ws_run_stops(s);
}

/// `s` without its leading-whitespace run; mirror of [`skip_ws`].
pub fn skip_ws_exec<'a>(s: &'a str) -> (r: &'a str)
    ensures
        r@ == skip_ws(s@),
{
    let run: usize = ws_run_exec(s);
    proof {
        lemma_ws_run_stops(s@);
    }
    let len: usize = s.unicode_len();
    s.substring_char(run, len)
}

/// Lines joined with a single newline separator between neighbours.
pub open spec fn join(lines: Seq<Seq<char>>) -> Seq<char>
    decreases lines.len(),
{
    if lines.len() == 0 {
        Seq::empty()
    } else if lines.len() == 1 {
        lines[0]
    } else {
        join(lines.drop_last()) + seq!['\n'] + lines.last()
    }
}

/// The view of an optional owned string.
pub open spec fn opt_str_view(o: Option<String>) -> Option<Seq<char>> {
    match o {
        Option::Some(s) => Option::Some(s@),
        Option::None => Option::None,
    }
}

/// The view of a list of owned strings.
pub open spec fn strings_view(ss: Seq<String>) -> Seq<Seq<char>> {
    Seq::new(ss.len(), |i: int| ss[i]@)
}

/// Whether two string slices hold the same characters.
pub fn str_eq(a: &str, b: &str) -> (r: bool)
    ensures
        r == (a@ == b@),
{
    let alen: usize = a.unicode_len();
    let blen: usize = b.unicode_len();
    if alen != blen {
        return false;
    }
    let mut i: usize = 0;
    while i < alen
        invariant
            0 <= i <= alen,
            alen == a@.len(),
            blen == b@.len(),
            alen == blen,
            forall|j: int| 0 <= j < i ==> a@[j] == b@[j],
        decreases alen - i,
    {
        if a.get_char(i) != b.get_char(i) {
            return false;
        }
        i = i + 1;
    }
    proof {
        assert(a@ =~= b@);
    }
    true
}

} // verus!
