//! Escaping text for the typesetter that renders benchmark tables:
//! underscores are significant there, so each one gets a backslash.

use vstd::prelude::*;
use vstd::string::StrSliceExecFns;

verus! {

/// What escaping one character yields.
pub open spec fn spec_escape_char(c: char) -> Seq<char> {
    if c == '_' {
        seq!['\\', '_']
    } else {
        seq![c]
    }
}

/// The escaped form of a string: every underscore preceded by a
/// backslash, every other character kept.
pub open spec fn spec_sanitize(s: Seq<char>) -> Seq<char>
    decreases s.len(),
{
    if s.len() == 0 {
        Seq::empty()
    } else {
        spec_escape_char(s[0]) + spec_sanitize(s.subrange(1, s.len() as int))
    }
}

/// Relies on `String::push`: appends the given character to the end
/// of the string.
pub assume_specification[ String::push ](s: &mut String, ch: char)
    ensures
        final(s)@ == old(s)@.push(ch),
;

/// Escaping distributes over appending one character at the end.
proof fn lemma_sanitize_snoc(t: Seq<char>, c: char)
    ensures
        spec_sanitize(t.push(c)) == spec_sanitize(t) + spec_escape_char(c),
    decreases t.len(),
{
    if t.len() == 0 {
        assert(t.push(c).subrange(1, 1) =~= Seq::<char>::empty());
        assert(spec_sanitize(Seq::<char>::empty()) =~= Seq::<char>::empty());
        assert(t =~= Seq::<char>::empty());
        assert(spec_sanitize(t.push(c)) =~= spec_sanitize(t) + spec_escape_char(c));
    } else {
        assert(t.push(c).subrange(1, (t.len() + 1) as int) =~= t.subrange(
            1,
            t.len() as int,
        ).push(c));
        lemma_sanitize_snoc(t.subrange(1, t.len() as int), c);
        assert(spec_sanitize(t.push(c)) =~= spec_sanitize(t) + spec_escape_char(c));
    }
}

/// Sanitizes a string so the typesetter can render it: every
/// underscore comes out escaped by a backslash.
pub fn sanitize_str(s: String) -> (r: String)
    ensures
        r@ == spec_sanitize(s@),
{
    let n = s.as_str().unicode_len();
    let mut out = String::new();
    let mut i: usize = 0;
    while i < n
        invariant
            n as nat == s@.len(),
            i <= n,
            out@ == spec_sanitize(s@.subrange(0, i as int)),
        decreases n - i,
    {
        let c = s.as_str().get_char(i);
        proof {
            lemma_sanitize_snoc(s@.subrange(0, i as int), c);
            assert(s@.subrange(0, (i + 1) as int) =~= s@.subrange(0, i as int).push(c));
        }
        if c == '_' {
            out.push('\\');
            out.push('_');
        } else {
            out.push(c);
        }
        proof {
            assert(out@ =~= spec_sanitize(s@.subrange(0, (i + 1) as int)));
        }
        i = i + 1;
    }
    proof {
        assert(s@.subrange(0, n as int) =~= s@);
    }
    out
}

} // verus!
