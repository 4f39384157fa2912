//! Small verified utilities on character sequences and strings, shared by
//! the renderers.

use vstd::prelude::*;
use vstd::string::*;

verus! {

/// Character-wise equality of two string slices.
pub fn str_eq_str(a: &str, b: &str) -> (r: bool)
    ensures
        r == (a@ == b@),
{
    let alen = a.unicode_len();
    let blen = b.unicode_len();
    if alen != blen {
        return false;
    }
    let mut i: usize = 0;
    while i < alen
        invariant
            alen == a@.len(),
            alen == b@.len(),
            i <= alen,
            forall|j: int| 0 <= j < i ==> a@[j] == b@[j],
        decreases alen - i,
    {
        if a.get_char(i) != b.get_char(i) {
            return false;
        }
        i += 1;
    }
    proof {
        assert(a@ =~= b@);
    }
    true
}

/// Relies on `String::push`: appends exactly the given character.
#[verifier::external_body]
pub(crate) fn push_char(s: &mut String, c: char)
    ensures
        final(s)@ == old(s)@ + seq![c],
{
    s.push(c);
}

/// The given texts joined with a single space between neighbours.
pub open spec fn join_space(xs: Seq<Seq<char>>) -> Seq<char>
    decreases xs.len(),
{
    if xs.len() == 0 {
        Seq::empty()
    } else if xs.len() == 1 {
        xs[0]
    } else {
        xs[0] + " "@ + join_space(xs.skip(1))
    }
}

/// Appending one more text extends the joined text by a space and the text.
pub proof fn lemma_join_space_push(xs: Seq<Seq<char>>, x: Seq<char>)
    requires
        xs.len() > 0,
    ensures
        join_space(xs.push(x)) == join_space(xs) + " "@ + x,
    decreases xs.len(),
{
    if xs.len() == 1 {
        assert(xs.push(x).skip(1) =~= seq![x]);
        assert(join_space(seq![x]) == x);
        assert(xs.push(x)[0] == xs[0]);
    } else {
        lemma_join_space_push(xs.skip(1), x);
        assert(xs.push(x).skip(1) =~= xs.skip(1).push(x));
        assert(xs.push(x)[0] == xs[0]);
        assert(join_space(xs.push(x)) == xs[0] + " "@ + (join_space(xs.skip(1)) + " "@ + x));
        assert(join_space(xs.push(x)) =~= join_space(xs) + " "@ + x);
    }
}

/// The view of each string in the vector, in order.
pub open spec fn views_of_strings(v: Seq<String>) -> Seq<Seq<char>> {
    Seq::new(v.len(), |i: int| v[i]@)
}

/// Join rendered parts with single spaces.
pub fn join_with_space(parts: &Vec<String>) -> (r: String)
    ensures
        r@ == join_space(views_of_strings(parts@)),
{
    let ghost all: Seq<Seq<char>> = views_of_strings(parts@);
    let mut r = String::new();
    let mut i: usize = 0;
    while i < parts.len()
        invariant
            i <= parts@.len(),
            all == views_of_strings(parts@),
            r@ == join_space(all.take(i as int)),
        decreases parts@.len() - i,
    {
        if i > 0 {
            r.append(" ");
        }
        r.append(parts[i].as_str());
        proof {
            assert(all.take(i as int + 1) =~= all.take(i as int).push(parts@[i as int]@));
            if i > 0 {
                lemma_join_space_push(all.take(i as int), parts@[i as int]@);
            } else {
                assert(all.take(1) =~= seq![parts@[0]@]);
            }
        }
        i += 1;
    }
    proof {
        assert(all.take(parts@.len() as int) =~= all);
    }
    r
}

/// Whether the text's final character is a semicolon.
pub open spec fn ends_with_semicolon(s: Seq<char>) -> bool {
    s.len() > 0 && s[s.len() - 1] == ';'
}

/// The text, terminated by a semicolon unless it already ends in one.
pub open spec fn terminated(s: Seq<char>) -> Seq<char> {
    if ends_with_semicolon(s) {
        s
    } else {
        s + ";"@
    }
}

/// A concatenation of two texts that do not end in a semicolon does not
/// end in one either.
pub proof fn lemma_concat_semicolon_free(a: Seq<char>, b: Seq<char>)
    requires
        !ends_with_semicolon(a),
        !ends_with_semicolon(b),
    ensures
        !ends_with_semicolon(a + b),
{
    if b.len() > 0 {
        assert((a + b)[a.len() + b.len() - 1] == b[b.len() - 1]);
    } else {
        assert(a + b =~= a);
    }
}

/// Joining nonempty texts that do not end in a semicolon yields a nonempty
/// text that does not end in one.
pub proof fn lemma_join_space_semicolon_free(xs: Seq<Seq<char>>)
    requires
        xs.len() > 0,
        forall|i: int| 0 <= i < xs.len() ==> xs[i].len() > 0 && !ends_with_semicolon(xs[i]),
    ensures
        join_space(xs).len() > 0,
        !ends_with_semicolon(join_space(xs)),
    decreases xs.len(),
{
    if xs.len() == 1 {
        assert(xs[0].len() > 0);
    } else {
        let tail = xs.skip(1);
        assert forall|i: int| 0 <= i < tail.len() implies tail[i].len() > 0
            && !ends_with_semicolon(tail[i]) by {
            assert(tail[i] == xs[i + 1]);
        }
        lemma_join_space_semicolon_free(tail);
        let whole = xs[0] + " "@ + join_space(tail);
        assert(whole[whole.len() - 1] == join_space(tail)[join_space(tail).len() - 1]);
    }
}

/// A terminated text always ends with a semicolon.
pub proof fn lemma_terminated_ends_with_semicolon(s: Seq<char>)
    ensures
        ends_with_semicolon(terminated(s)),
{
    if !ends_with_semicolon(s) {
        reveal_strlit(";");
        assert(terminated(s)[terminated(s).len() - 1] == ';');
    }
}

/// Terminating twice adds nothing over terminating once.
pub proof fn lemma_terminated_idempotent(s: Seq<char>)
    ensures
        terminated(terminated(s)) == terminated(s),
{
    lemma_terminated_ends_with_semicolon(s);
}

/// Append the terminating semicolon to a string unless one is already there.
pub fn terminate_statement(q: &mut String)
    ensures
        final(q)@ == terminated(old(q)@),
{
    let n = q.as_str().unicode_len();
    if n == 0 || q.as_str().get_char(n - 1) != ';' {
        q.append(";");
    }
}

} // verus!
