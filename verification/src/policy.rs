//! Derivation of stable rule identifiers and display names from dotted
//! policy namespaces such as `Perl::Critic::Policy::Variables::ProhibitLocalVars`.
//!
//! The identifier drops the first four `::`-separated segments, rewrites
//! each remaining segment from capitalized-word style to
//! lowercase-with-underscores style, joins the segments with `/`, and
//! prefixes `perl/`. The display name drops the same four segments and
//! concatenates the rest unchanged.

use vstd::prelude::*;

use crate::text::char_is_uppercase;
use crate::text::char_lower_first;
use crate::text::chars_to_string;
use crate::text::is_upper_char;
use crate::text::lower_char;
use crate::text::push_all;
use crate::text::str_chars;

verus! {

/// How one character is rewritten by the snake-case conversion: an
/// uppercase character becomes its lowercase form, preceded by an
/// underscore unless it is the first character; any other character is
/// kept as it is.
pub open spec fn snake_char(c: char, first: bool) -> Seq<char> {
    if is_upper_char(c) {
        if first {
            seq![lower_char(c)]
        } else {
            seq!['_', lower_char(c)]
        }
    } else {
        seq![c]
    }
}

/// The snake-case rewriting of the first `n` characters of `s`.
pub open spec fn spec_snake_prefix(s: Seq<char>, n: int) -> Seq<char>
    decreases n,
{
    if n <= 0 {
        Seq::<char>::empty()
    } else {
        spec_snake_prefix(s, n - 1) + snake_char(s[n - 1], n - 1 == 0)
    }
}

/// Capitalized-word style rewritten as lowercase-with-underscores style.
pub open spec fn spec_camel_to_snake(s: Seq<char>) -> Seq<char> {
    spec_snake_prefix(s, s.len() as int)
}

/// The segments of `s` split on the two-character separator `::`,
/// leftmost and non-overlapping, as `str::split` produces them: the empty
/// string yields one empty segment, and adjacent separators yield empty
/// segments between them.
pub open spec fn spec_split(s: Seq<char>) -> Seq<Seq<char>>
    decreases s.len(),
{
    if s.len() < 2 {
        seq![s]
    } else if s[0] == ':' && s[1] == ':' {
        seq![Seq::<char>::empty()] + spec_split(s.skip(2))
    } else {
        let rest = spec_split(s.skip(1));
        seq![seq![s[0]] + rest[0]] + rest.skip(1)
    }
}

/// A split always yields at least one segment.
pub proof fn lemma_split_len(s: Seq<char>)
    ensures
        spec_split(s).len() >= 1,
    decreases s.len(),
{
    if s.len() < 2 {
    } else if s[0] == ':' && s[1] == ':' {
        lemma_split_len(s.skip(2));
    } else {
        lemma_split_len(s.skip(1));
    }
}

/// `parts` with `p` prepended to its first segment.
pub open spec fn prepend_first(p: Seq<char>, parts: Seq<Seq<char>>) -> Seq<Seq<char>>
    recommends
        parts.len() >= 1,
{
    seq![p + parts[0]] + parts.skip(1)
}

proof fn lemma_prepend_empty(parts: Seq<Seq<char>>)
    requires
        parts.len() >= 1,
    ensures
        prepend_first(Seq::<char>::empty(), parts) == parts,
{
    assert(prepend_first(Seq::<char>::empty(), parts) =~~= parts);
}

proof fn lemma_prepend_prepend(a: Seq<char>, b: char, parts: Seq<Seq<char>>)
    requires
        parts.len() >= 1,
    ensures
        prepend_first(a, prepend_first(seq![b], parts)) == prepend_first(a.push(b), parts),
{
    assert(prepend_first(a, prepend_first(seq![b], parts)) =~~= prepend_first(
        a.push(b),
        parts,
    ));
}

/// Splitting a sequence that does not start with the separator prepends
/// its first character to the first segment of the split of the rest.
proof fn lemma_split_step(s: Seq<char>)
    requires
        s.len() >= 1,
        !(s.len() >= 2 && s[0] == ':' && s[1] == ':'),
    ensures
        spec_split(s) == prepend_first(seq![s[0]], spec_split(s.skip(1))),
{
    if s.len() < 2 {
        assert(s.skip(1) =~= Seq::<char>::empty());
        assert(spec_split(s.skip(1)) =~~= seq![Seq::<char>::empty()]);
        assert(spec_split(s) =~~= prepend_first(seq![s[0]], spec_split(s.skip(1))));
    } else {
        lemma_split_len(s.skip(1));
        assert(spec_split(s) =~~= prepend_first(seq![s[0]], spec_split(s.skip(1))));
    }
}

/// The views of a sequence of character vectors.
pub open spec fn views_of(parts: Seq<Vec<char>>) -> Seq<Seq<char>> {
    parts.map_values(|p: Vec<char>| p@)
}

/// Split a character vector on the two-character separator `::`.
pub(crate) fn split_double_colon(v: &Vec<char>) -> (parts: Vec<Vec<char>>)
    ensures
        views_of(parts@) == spec_split(v@),
{
    let n = v.len();
    let mut parts: Vec<Vec<char>> = Vec::new();
    let mut cur: Vec<char> = Vec::new();
    let mut i: usize = 0;
    proof {
        lemma_split_len(v@);
        lemma_prepend_empty(spec_split(v@));
        assert(v@.skip(0) =~= v@);
    }
    while i < n
        invariant
            n == v@.len(),
            i <= n,
            spec_split(v@) == views_of(parts@) + prepend_first(cur@, spec_split(v@.skip(i as int))),
        decreases n - i,
    {
        if i + 1 < n && v[i] == ':' && v[i + 1] == ':' {
            proof {
                let rest = v@.skip(i as int);
                assert(rest.len() >= 2 && rest[0] == ':' && rest[1] == ':');
                assert(rest.skip(2) =~= v@.skip(i + 2 as int));
                lemma_split_len(v@.skip(i + 2 as int));
                lemma_prepend_empty(spec_split(v@.skip(i + 2 as int)));
                assert(prepend_first(cur@, spec_split(rest)) =~~= views_of(seq![cur])
                    + prepend_first(Seq::<char>::empty(), spec_split(v@.skip(i + 2 as int))));
                assert(views_of(parts@.push(cur)) =~~= views_of(parts@) + views_of(seq![cur]));
            }
            parts.push(cur);
            cur = Vec::new();
            i = i + 2;
        } else {
            proof {
                let rest = v@.skip(i as int);
                assert(rest[0] == v@[i as int]);
                assert(rest.len() >= 2 ==> rest[1] == v@[i + 1]);
                assert(rest.skip(1) =~= v@.skip(i + 1 as int));
                lemma_split_step(rest);
                lemma_split_len(v@.skip(i + 1 as int));
                lemma_prepend_prepend(cur@, v@[i as int], spec_split(v@.skip(i + 1 as int)));
            }
            let c = v[i];
            cur.push(c);
            i = i + 1;
        }
    }
    proof {
        assert(v@.skip(n as int) =~= Seq::<char>::empty());
        assert(prepend_first(cur@, spec_split(v@.skip(n as int))) =~~= seq![cur@]);
        assert(views_of(parts@.push(cur)) =~~= views_of(parts@) + seq![cur@]);
    }
    parts.push(cur);
    parts
}

/// All segments after the four-segment namespace prefix; empty when there
/// are no more than four segments.
pub open spec fn spec_skip4(parts: Seq<Seq<char>>) -> Seq<Seq<char>> {
    if parts.len() <= 4 {
        Seq::<Seq<char>>::empty()
    } else {
        parts.skip(4)
    }
}

/// The segments joined with the given separator between them.
pub open spec fn spec_join(parts: Seq<Seq<char>>, sep: Seq<char>) -> Seq<char>
    decreases parts.len(),
{
    if parts.len() == 0 {
        Seq::<char>::empty()
    } else if parts.len() == 1 {
        parts[0]
    } else {
        spec_join(parts.drop_last(), sep) + sep + parts.last()
    }
}

/// The snake-cased segments of a policy string after the namespace prefix.
pub open spec fn snake_segments(s: Seq<char>) -> Seq<Seq<char>> {
    spec_skip4(spec_split(s)).map_values(|p: Seq<char>| spec_camel_to_snake(p))
}

/// The stable rule identifier derived from a policy string: `perl/`
/// followed by the snake-cased post-prefix segments joined with `/`.
pub open spec fn spec_policy_to_id(s: Seq<char>) -> Seq<char> {
    "perl/"@ + spec_join(snake_segments(s), seq!['/'])
}

/// The display name derived from a policy string: the post-prefix
/// segments concatenated unchanged.
pub open spec fn spec_policy_to_name(s: Seq<char>) -> Seq<char> {
    spec_join(spec_skip4(spec_split(s)), Seq::<char>::empty())
}

/// Identifier and display-name derivation are pure functions of the
/// policy string: equal policy strings always derive equal identifiers
/// and equal display names.
pub proof fn lemma_derivation_deterministic(a: Seq<char>, b: Seq<char>)
    requires
        a == b,
    ensures
        spec_policy_to_id(a) == spec_policy_to_id(b),
        spec_policy_to_name(a) == spec_policy_to_name(b),
{
}

/// Snake-case one segment, as a character vector.
pub(crate) fn snake_chars(v: &Vec<char>) -> (r: Vec<char>)
    ensures
        r@ == spec_camel_to_snake(v@),
{
    let n = v.len();
    let mut r: Vec<char> = Vec::new();
    let mut i: usize = 0;
    while i < n
        invariant
            n == v@.len(),
            i <= n,
            r@ == spec_snake_prefix(v@, i as int),
        decreases n - i,
    {
        let c = v[i];
        if char_is_uppercase(c) {
            if i > 0 {
                r.push('_');
                let lc = char_lower_first(c);
                r.push(lc);
                proof {
                    assert(r@ =~= spec_snake_prefix(v@, i as int) + snake_char(
                        v@[i as int],
                        i == 0,
                    ));
                }
            } else {
                let lc = char_lower_first(c);
                r.push(lc);
                proof {
                    assert(r@ =~= spec_snake_prefix(v@, i as int) + snake_char(
                        v@[i as int],
                        i == 0,
                    ));
                }
            }
        } else {
            r.push(c);
            proof {
                assert(r@ =~= spec_snake_prefix(v@, i as int) + snake_char(v@[i as int], i == 0));
            }
        }
        i = i + 1;
    }
    r
}

/// Rewrite capitalized-word style as lowercase-with-underscores style:
/// every uppercase character is lowercased, and preceded by an underscore
/// unless it begins the string.
pub fn camel_to_snake(s: &str) -> (r: String)
    ensures
        r@ == spec_camel_to_snake(s@),
{
    let v = str_chars(s);
    let snake = snake_chars(&v);
    chars_to_string(&snake)
}

/// Derive the stable rule identifier from a dotted policy string: drop
/// the first four `::`-separated segments, snake-case each remaining
/// segment, join them with `/`, and prefix `perl/`.
pub fn policy_to_id(policy: &str) -> (r: String)
    ensures
        r@ == spec_policy_to_id(policy@),
{
    let chars = str_chars(policy);
    let parts = split_double_colon(&chars);
    let ghost mapped = snake_segments(policy@);
    let mut joined: Vec<char> = Vec::new();
    let n = parts.len();
    proof {
        if n <= 4 {
            assert(spec_join(mapped, seq!['/']) =~= Seq::<char>::empty());
        }
    }
    let mut i: usize = 4;
    while i < n
        invariant
            n == parts@.len(),
            views_of(parts@) == spec_split(policy@),
            mapped == snake_segments(policy@),
            4 <= i,
            n > 4 ==> i <= n,
            n <= 4 ==> i == 4,
            joined@ == spec_join(mapped.take(i - 4), seq!['/']),
        decreases n - i,
    {
        proof {
            assert(mapped[i - 4] == spec_camel_to_snake(views_of(parts@)[i as int]));
        }
        if i > 4 {
            joined.push('/');
        }
        let snake = snake_chars(&parts[i]);
        push_all(&mut joined, &snake);
        proof {
            assert(mapped.take(i - 3).drop_last() =~= mapped.take(i - 4));
            assert(mapped.take(i - 3).last() == mapped[i - 4]);
            if i > 4 {
                assert(joined@ =~= spec_join(mapped.take(i - 4), seq!['/']) + seq!['/']
                    + mapped[i - 4]);
            } else {
                assert(joined@ =~= mapped[0]);
            }
        }
        i = i + 1;
    }
    proof {
        if n > 4 {
            assert(mapped.take(n - 4) =~= mapped);
        }
    }
    let tail = chars_to_string(&joined);
    String::from_str("perl/").concat(tail.as_str())
}

/// Derive the display name from a dotted policy string: drop the first
/// four `::`-separated segments and concatenate the rest unchanged.
pub fn policy_to_name(policy: &str) -> (r: String)
    ensures
        r@ == spec_policy_to_name(policy@),
{
    let chars = str_chars(policy);
    let parts = split_double_colon(&chars);
    let ghost kept = spec_skip4(spec_split(policy@));
    let mut joined: Vec<char> = Vec::new();
    let n = parts.len();
    proof {
        if n <= 4 {
            assert(spec_join(kept, Seq::<char>::empty()) =~= Seq::<char>::empty());
        }
    }
    let mut i: usize = 4;
    while i < n
        invariant
            n == parts@.len(),
            views_of(parts@) == spec_split(policy@),
            kept == spec_skip4(spec_split(policy@)),
            4 <= i,
            n > 4 ==> i <= n,
            n <= 4 ==> i == 4,
            joined@ == spec_join(kept.take(i - 4), Seq::<char>::empty()),
        decreases n - i,
    {
        proof {
            assert(kept[i - 4] == views_of(parts@)[i as int]);
        }
        push_all(&mut joined, &parts[i]);
        proof {
            assert(kept.take(i - 3).drop_last() =~= kept.take(i - 4));
            assert(kept.take(i - 3).last() == kept[i - 4]);
            if i > 4 {
                assert(joined@ =~= spec_join(kept.take(i - 4), Seq::<char>::empty())
                    + Seq::<char>::empty() + kept[i - 4]);
            } else {
                assert(joined@ =~= kept[0]);
            }
        }
        i = i + 1;
    }
    proof {
        if n > 4 {
            assert(kept.take(n - 4) =~= kept);
        }
    }
    chars_to_string(&joined)
}

} // verus!
