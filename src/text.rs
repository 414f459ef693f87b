use vstd::prelude::*;

verus! {

/// What `char::is_whitespace` answers for a character: whether it has the
/// Unicode `White_Space` property.
pub uninterp spec fn is_white(c: char) -> bool;

/// What `char::to_uppercase` yields for a character: its full Unicode
/// uppercase mapping, which may be several characters long.
pub uninterp spec fn upper_of(c: char) -> Seq<char>;

/// Relies on `char::is_whitespace`: the answer depends on the character alone.
#[verifier::external_body]
fn is_space(c: char) -> (r: bool)
    ensures
        r == is_white(c),
{
    c.is_whitespace()
}

/// Relies on `char::to_uppercase`, collected into a `String`: its
/// documentation promises one or more characters.
#[verifier::external_body]
fn uppercase(c: char) -> (r: String)
    ensures
        r@ == upper_of(c),
        r@.len() >= 1,
{
    c.to_uppercase().collect::<String>()
}

/// Relies on `String::push`: the character is appended at the end.
#[verifier::external_body]
fn push_char(s: &mut String, c: char)
    ensures
        final(s)@ == old(s)@.push(c),
{
    s.push(c)
}

/// The output for `s` when the character before `s` was whitespace
/// (`after_white`) or not: a linear scan that carries one flag.
pub open spec fn capitalized_from(s: Seq<char>, after_white: bool) -> Seq<char>
    decreases s.len(),
{
    if s.len() == 0 {
        Seq::empty()
    } else if is_white(s[0]) {
        seq![s[0]] + capitalized_from(s.drop_first(), true)
    } else if after_white {
        upper_of(s[0]) + capitalized_from(s.drop_first(), false)
    } else {
        seq![s[0]] + capitalized_from(s.drop_first(), false)
    }
}

/// `s` with the first character of each maximal run of non-whitespace
/// characters replaced by its uppercase mapping; the start of `s` counts as
/// whitespace.
pub open spec fn capitalized(s: Seq<char>) -> Seq<char> {
    capitalized_from(s, true)
}

/// Uppercases the first character of every word of `val`, keeping all
/// whitespace and every other character as it is.
pub fn capitalize(val: &str) -> (r: String)
    ensures
        r@ == capitalized(val@),
        val@.len() == 0 ==> r@.len() == 0,
{
    broadcast use vstd::string::axiom_spec_iter;

    let mut out = String::new();
    let mut is_prev_whitespace = true;
    assert(val@.subrange(0, val@.len() as int) =~= val@);
    assert(out@ + capitalized(val@) =~= capitalized(val@));
    for c in it: val.chars()
        invariant
            it.seq() == val@,
            out@ + capitalized_from(val@.subrange(it.index() as int, val@.len() as int), is_prev_whitespace)
                == capitalized(val@),
    {
        let ghost rest = val@.subrange(it.index() as int, val@.len() as int);
        assert(rest.drop_first() =~= val@.subrange(it.index() + 1, val@.len() as int));
        if is_space(c) {
            is_prev_whitespace = true;
            push_char(&mut out, c);
        } else if is_prev_whitespace {
            is_prev_whitespace = false;
            let up = uppercase(c);
            out.append(up.as_str());
        } else {
            push_char(&mut out, c);
        }
        assert(out@ + capitalized_from(rest.drop_first(), is_prev_whitespace) =~= capitalized(val@));
    }
    assert(val@.subrange(val@.len() as int, val@.len() as int) =~= Seq::<char>::empty());
    assert(out@ =~= out@ + Seq::<char>::empty());
    out
}

/// The whitespace characters of `s`, in order.
pub open spec fn whitespace_of(s: Seq<char>) -> Seq<char> {
    s.filter(|c: char| is_white(c))
}

/// Whether the uppercase mapping of `c` is non-empty and holds no whitespace.
pub open spec fn upper_is_solid(c: char) -> bool {
    let u = upper_of(c);
    &&& u.len() >= 1
    &&& forall|j: int| 0 <= j < u.len() ==> !is_white(#[trigger] u[j])
}

/// Whether the uppercase mapping of `c` is solid and its first character is
/// its own uppercase mapping.
pub open spec fn upper_is_settled(c: char) -> bool {
    &&& upper_is_solid(c)
    &&& upper_of(upper_of(c)[0]) == seq![upper_of(c)[0]]
}

/// A text made of whitespace only comes back unchanged.
pub proof fn lemma_all_white_unchanged(s: Seq<char>)
    requires
        forall|i: int| 0 <= i < s.len() ==> is_white(#[trigger] s[i]),
    ensures
        capitalized(s) == s,
{
    lemma_all_white_from(s, true);
}

proof fn lemma_all_white_from(s: Seq<char>, after_white: bool)
    requires
        forall|i: int| 0 <= i < s.len() ==> is_white(#[trigger] s[i]),
    ensures
        capitalized_from(s, after_white) == s,
    decreases s.len(),
{
    if s.len() > 0 {
        assert(is_white(s[0]));
        let rest = s.drop_first();
        assert forall|i: int| 0 <= i < rest.len() implies is_white(#[trigger] rest[i]) by {
            assert(rest[i] == s[i + 1]);
        }
        lemma_all_white_from(rest, true);
        assert(seq![s[0]] + rest =~= s);
    }
}

/// Characters without whitespace, scanned inside a word, pass through as they are.
proof fn lemma_inside_word(w: Seq<char>, x: Seq<char>)
    requires
        forall|j: int| 0 <= j < w.len() ==> !is_white(#[trigger] w[j]),
    ensures
        capitalized_from(w + x, false) == w + capitalized_from(x, false),
    decreases w.len(),
{
    if w.len() > 0 {
        let rest = w.drop_first();
        assert((w + x).drop_first() =~= rest + x);
        assert forall|j: int| 0 <= j < rest.len() implies !is_white(#[trigger] rest[j]) by {
            assert(rest[j] == w[j + 1]);
        }
        assert(!is_white((w + x)[0]));
        lemma_inside_word(rest, x);
        assert(seq![w[0]] + (rest + capitalized_from(x, false)) =~= w + capitalized_from(x, false));
    }
}

proof fn lemma_idempotent_from(s: Seq<char>, after_white: bool)
    requires
        forall|i: int| 0 <= i < s.len() && !is_white(s[i]) ==> upper_is_settled(#[trigger] s[i]),
    ensures
        capitalized_from(capitalized_from(s, after_white), after_white)
            == capitalized_from(s, after_white),
    decreases s.len(),
{
    if s.len() > 0 {
        let rest = s.drop_first();
        assert forall|i: int| 0 <= i < rest.len() && !is_white(rest[i]) implies upper_is_settled(
            #[trigger] rest[i],
        ) by {
            assert(rest[i] == s[i + 1]);
        }
        if is_white(s[0]) {
            lemma_idempotent_from(rest, true);
            let out = seq![s[0]] + capitalized_from(rest, true);
            assert(out.drop_first() =~= capitalized_from(rest, true));
        } else if after_white {
            lemma_idempotent_from(rest, false);
            let u = upper_of(s[0]);
            let x = capitalized_from(rest, false);
            let out = u + x;
            assert(upper_is_settled(s[0]));
            assert(!is_white(out[0]));
            let tail = u.drop_first();
            assert(out.drop_first() =~= tail + x);
            assert forall|j: int| 0 <= j < tail.len() implies !is_white(#[trigger] tail[j]) by {
                assert(tail[j] == u[j + 1]);
            }
            lemma_inside_word(tail, x);
            assert(upper_of(u[0]) + (tail + x) =~= out);
        } else {
            lemma_idempotent_from(rest, false);
            let out = seq![s[0]] + capitalized_from(rest, false);
            assert(out.drop_first() =~= capitalized_from(rest, false));
        }
    }
}

/// Capitalizing twice gives what capitalizing once gives, for every text
/// whose non-whitespace characters have settled uppercase mappings.
pub proof fn lemma_capitalize_idempotent(s: Seq<char>)
    requires
        forall|i: int| 0 <= i < s.len() && !is_white(s[i]) ==> upper_is_settled(#[trigger] s[i]),
    ensures
        capitalized(capitalized(s)) == capitalized(s),
{
    lemma_idempotent_from(s, true);
}

proof fn lemma_whitespace_from(s: Seq<char>, after_white: bool)
    requires
        forall|i: int| 0 <= i < s.len() && !is_white(s[i]) ==> upper_is_solid(#[trigger] s[i]),
    ensures
        whitespace_of(capitalized_from(s, after_white)) == whitespace_of(s),
    decreases s.len(),
{
    let pred = |c: char| is_white(c);
    if s.len() > 0 {
        let rest = s.drop_first();
        assert forall|i: int| 0 <= i < rest.len() && !is_white(rest[i]) implies upper_is_solid(
            #[trigger] rest[i],
        ) by {
            assert(rest[i] == s[i + 1]);
        }
        let head = if !is_white(s[0]) && after_white {
            upper_of(s[0])
        } else {
            seq![s[0]]
        };
        let next = is_white(s[0]);
        lemma_whitespace_from(rest, next);
        assert(capitalized_from(s, after_white) == head + capitalized_from(rest, next));
        Seq::filter_distributes_over_add(head, capitalized_from(rest, next), pred);
        assert(seq![s[0]] + rest =~= s);
        Seq::filter_distributes_over_add(seq![s[0]], rest, pred);
        if !is_white(s[0]) && after_white {
            lemma_no_white_filtered(head);
            lemma_no_white_filtered(seq![s[0]]);
        }
    }
}

proof fn lemma_no_white_filtered(w: Seq<char>)
    requires
        forall|j: int| 0 <= j < w.len() ==> !is_white(#[trigger] w[j]),
    ensures
        whitespace_of(w) == Seq::<char>::empty(),
    decreases w.len(),
{
    reveal_with_fuel(Seq::filter, 1);
    if w.len() > 0 {
        let init = w.drop_last();
        assert forall|j: int| 0 <= j < init.len() implies !is_white(#[trigger] init[j]) by {
            assert(init[j] == w[j]);
        }
        lemma_no_white_filtered(init);
        assert(!is_white(w.last()));
    }
}

/// Capitalizing leaves the whitespace layout untouched: the whitespace
/// characters of the output are those of the input, in order, for every text
/// whose non-whitespace characters have uppercase mappings without whitespace.
pub proof fn lemma_whitespace_kept(s: Seq<char>)
    requires
        forall|i: int| 0 <= i < s.len() && !is_white(s[i]) ==> upper_is_solid(#[trigger] s[i]),
    ensures
        whitespace_of(capitalized(s)) == whitespace_of(s),
{
    lemma_whitespace_from(s, true);
}

} // verus!
