//! Dotted protobuf names: splitting a full name into its namespace and its
//! short name, and joining them back.
use vstd::prelude::*;

verus! {

/// Index of the last `'.'` in `s`, or `-1` when `s` holds no `'.'`.
pub open spec fn last_dot(s: Seq<char>) -> int
    decreases s.len(),
{
    if s.len() == 0 {
        -1
    } else if s.last() == '.' {
        s.len() - 1
    } else {
        last_dot(s.drop_last())
    }
}

/// Number of `'.'` characters at the start of `s`.
pub open spec fn leading_dots(s: Seq<char>) -> nat
    decreases s.len(),
{
    if s.len() > 0 && s[0] == '.' {
        1 + leading_dots(s.drop_first())
    } else {
        0
    }
}

/// `s` without any of its leading `'.'` characters.
pub open spec fn trim_leading_dots(s: Seq<char>) -> Seq<char> {
    s.skip(leading_dots(s) as int)
}

/// `s` without its first character when that character is a `'.'`.
pub open spec fn strip_dot(s: Seq<char>) -> Seq<char> {
    if s.len() > 0 && s[0] == '.' {
        s.drop_first()
    } else {
        s
    }
}

/// Whether `s` holds no `'.'`.
pub open spec fn has_no_dot(s: Seq<char>) -> bool {
    forall|j: int| 0 <= j < s.len() ==> s[j] != '.'
}

/// The part of a full name after its last `'.'` (the whole name when it has none).
pub open spec fn spec_parse_name(full_name: Seq<char>) -> Seq<char> {
    let d = last_dot(full_name);
    if d >= 0 {
        full_name.subrange(d + 1, full_name.len() as int)
    } else {
        full_name
    }
}

/// The part of a full name before its last `'.'` (empty when it has none).
pub open spec fn spec_parse_namespace(full_name: Seq<char>) -> Seq<char> {
    let d = last_dot(full_name);
    if d >= 0 {
        full_name.subrange(0, d)
    } else {
        Seq::empty()
    }
}

/// `namespace.name`, where the namespace loses its leading dots and an empty
/// namespace leaves `name` alone.
pub open spec fn spec_make_full_name(namespace: Seq<char>, name: Seq<char>) -> Seq<char> {
    let ns = trim_leading_dots(namespace);
    if ns.len() == 0 {
        name
    } else {
        ns + seq!['.'] + name
    }
}

/// What `last_dot` returns: a `'.'` with no `'.'` after it, or `-1` for a name without dots.
pub proof fn lemma_last_dot(s: Seq<char>)
    ensures
        -1 <= last_dot(s) < s.len(),
        last_dot(s) >= 0 ==> s[last_dot(s)] == '.',
        forall|j: int| last_dot(s) < j < s.len() ==> s[j] != '.',
    decreases s.len(),
{
    if s.len() > 0 && s.last() != '.' {
        lemma_last_dot(s.drop_last());
        assert forall|j: int| last_dot(s) < j < s.len() implies s[j] != '.' by {
            if j < s.len() - 1 {
                assert(s[j] == s.drop_last()[j]);
            }
        }
    }
}

/// The position of the last dot is the only position with that characterization.
pub proof fn lemma_last_dot_unique(s: Seq<char>, k: int)
    requires
        -1 <= k < s.len(),
        k >= 0 ==> s[k] == '.',
        forall|j: int| k < j < s.len() ==> s[j] != '.',
    ensures
        last_dot(s) == k,
    decreases s.len(),
{
    if s.len() > 0 && k < s.len() - 1 {
        assert(s.last() != '.');
        let t = s.drop_last();
        assert forall|j: int| k < j < t.len() implies t[j] != '.' by {
            assert(t[j] == s[j]);
        }
        if k >= 0 {
            assert(t[k] == s[k]);
        }
        lemma_last_dot_unique(t, k);
    }
}

/// What `leading_dots` counts: a prefix of dots followed by a non-dot or the end.
pub proof fn lemma_leading_dots(s: Seq<char>)
    ensures
        leading_dots(s) <= s.len(),
        forall|j: int| 0 <= j < leading_dots(s) ==> s[j] == '.',
        leading_dots(s) < s.len() ==> s[leading_dots(s) as int] != '.',
    decreases s.len(),
{
    if s.len() > 0 && s[0] == '.' {
        let t = s.drop_first();
        lemma_leading_dots(t);
        assert forall|j: int| 0 <= j < leading_dots(s) implies s[j] == '.' by {
            if j > 0 {
                assert(s[j] == t[j - 1]);
            }
        }
        if leading_dots(s) < s.len() {
            assert(s[leading_dots(s) as int] == t[leading_dots(t) as int]);
        }
    }
}

/// A prefix of dots followed by a non-dot or the end is what `leading_dots` counts.
pub proof fn lemma_leading_dots_unique(s: Seq<char>, k: int)
    requires
        0 <= k <= s.len(),
        forall|j: int| 0 <= j < k ==> s[j] == '.',
        k < s.len() ==> s[k] != '.',
    ensures
        leading_dots(s) == k,
    decreases s.len(),
{
    if k > 0 {
        let t = s.drop_first();
        assert forall|j: int| 0 <= j < k - 1 implies t[j] == '.' by {
            assert(t[j] == s[j + 1]);
        }
        if k - 1 < t.len() {
            assert(t[k - 1] == s[k]);
        }
        lemma_leading_dots_unique(t, k - 1);
    }
}

/// Index just past the last `'.'` of `s` (zero when `s` holds no `'.'`).
fn after_last_dot(s: &str) -> (r: usize)
    ensures
        r == last_dot(s@) + 1,
        r <= s@.len(),
{
    let len = s.unicode_len();
    let mut i = len;
    while i > 0 && s.get_char(i - 1) != '.'
        invariant
            i <= len,
            len == s@.len(),
            forall|j: int| i <= j < len ==> s@[j] != '.',
        decreases i,
    {
        i = i - 1;
    }
    proof {
        lemma_last_dot_unique(s@, i - 1);
    }
    i
}

/// Gets the short name from a full name, e.g. `MyMessage` from `my.package.MyMessage`.
pub fn parse_name(full_name: &str) -> (r: &str)
    ensures
        r@ == spec_parse_name(full_name@),
{
    let i = after_last_dot(full_name);
    if i > 0 {
        full_name.substring_char(i, full_name.unicode_len())
    } else {
        full_name
    }
}

/// Gets the namespace from a full name, e.g. `my.package` from `my.package.MyMessage`.
/// A name without any `'.'` has the empty namespace.
pub fn parse_namespace(full_name: &str) -> (r: &str)
    ensures
        r@ == spec_parse_namespace(full_name@),
{
    let i = after_last_dot(full_name);
    if i > 0 {
        full_name.substring_char(0, i - 1)
    } else {
        proof {
            reveal_strlit("");
        }
        ""
    }
}

/// Removes one leading `'.'` from a name, if it starts with one.
pub fn strip_leading_dot(name: &str) -> (r: &str)
    ensures
        r@ == strip_dot(name@),
{
    let len = name.unicode_len();
    if len > 0 && name.get_char(0) == '.' {
        name.substring_char(1, len)
    } else {
        name
    }
}

/// Joins a namespace and a name with a `'.'`. Leading dots of the namespace are
/// dropped, and an empty namespace gives the name itself.
pub fn make_full_name(namespace: &str, name: &str) -> (r: String)
    ensures
        r@ == spec_make_full_name(namespace@, name@),
{
    let len = namespace.unicode_len();
    let mut p: usize = 0;
    while p < len && namespace.get_char(p) == '.'
        invariant
            p <= len,
            len == namespace@.len(),
            forall|j: int| 0 <= j < p ==> namespace@[j] == '.',
        decreases len - p,
    {
        p = p + 1;
    }
    proof {
        lemma_leading_dots_unique(namespace@, p as int);
    }
    if p == len {
        name.to_owned()
    } else {
        let trimmed = namespace.substring_char(p, len);
        let mut r = trimmed.to_owned();
        r.append(".");
        proof {
            reveal_strlit(".");
        }
        r.append(name);
        r
    }
}

/// Joining a namespace that is not empty and has no leading `'.'` to a name puts a `'.'`
/// between them.
pub proof fn lemma_join_onto_scope(namespace: Seq<char>, name: Seq<char>)
    requires
        namespace.len() > 0,
        namespace[0] != '.',
    ensures
        spec_make_full_name(namespace, name) == namespace + seq!['.'] + name,
{
    lemma_leading_dots_unique(namespace, 0);
    assert(namespace.skip(0) =~= namespace);
}

/// Splitting a full name into its namespace and its short name and joining
/// them again gives back the full name, for every name that does not start
/// with a `'.'`.
pub proof fn lemma_full_name_round_trip(full_name: Seq<char>)
    requires
        full_name.len() == 0 || full_name[0] != '.',
    ensures
        spec_make_full_name(spec_parse_namespace(full_name), spec_parse_name(full_name))
            == full_name,
{
    lemma_last_dot(full_name);
    let d = last_dot(full_name);
    if d >= 0 {
        let ns = full_name.subrange(0, d);
        assert(d > 0);
        assert(ns[0] == full_name[0]);
        lemma_leading_dots_unique(ns, 0);
        assert(trim_leading_dots(ns) =~= ns);
        assert(ns + seq!['.'] + full_name.subrange(d + 1, full_name.len() as int) =~= full_name);
    } else {
        lemma_leading_dots_unique(Seq::<char>::empty(), 0);
    }
}

/// Joining a namespace and a name without dots, then splitting the result,
/// gives back the name and the namespace without its leading dots.
pub proof fn lemma_split_of_joined_name(namespace: Seq<char>, name: Seq<char>)
    requires
        has_no_dot(name),
    ensures
        spec_parse_name(spec_make_full_name(namespace, name)) == name,
        spec_parse_namespace(spec_make_full_name(namespace, name)) == trim_leading_dots(namespace),
{
    let ns = trim_leading_dots(namespace);
    let full = spec_make_full_name(namespace, name);
    if ns.len() == 0 {
        lemma_last_dot_unique(name, -1);
    } else {
        assert forall|j: int| ns.len() < j < full.len() implies full[j] != '.' by {
            assert(full[j] == name[j - ns.len() - 1]);
        }
        assert(full[ns.len() as int] == '.');
        lemma_last_dot_unique(full, ns.len() as int);
        assert(full.subrange(ns.len() + 1int, full.len() as int) =~= name);
        assert(full.subrange(0, ns.len() as int) =~= ns);
    }
}

} // verus!
