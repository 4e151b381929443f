//! Small verified string utilities: equality, search, trimming and
//! line splitting over `Seq<char>` views.

use vstd::prelude::*;

verus! {

/// Characters stripped from both ends of metadata and tool output.
pub open spec fn is_trim_char(c: char) -> bool {
    c == ' ' || c == '\t' || c == '\r' || c == '\n'
}

/// Leading trim characters removed.
pub open spec fn trim_left(s: Seq<char>) -> Seq<char>
    decreases s.len(),
{
    if s.len() > 0 && is_trim_char(s[0]) {
        trim_left(s.drop_first())
    } else {
        s
    }
}

/// Trailing trim characters removed.
pub open spec fn trim_right(s: Seq<char>) -> Seq<char>
    decreases s.len(),
{
    if s.len() > 0 && is_trim_char(s.last()) {
        trim_right(s.drop_last())
    } else {
        s
    }
}

/// Both ends trimmed.
pub open spec fn spec_trim(s: Seq<char>) -> Seq<char> {
    trim_right(trim_left(s))
}

/// Index of the first occurrence of `c` in `s`, if any.
pub open spec fn spec_find(s: Seq<char>, c: char) -> Option<int>
    decreases s.len(),
{
    if s.len() == 0 {
        None
    } else if s[0] == c {
        Some(0)
    } else {
        match spec_find(s.drop_first(), c) {
            Some(i) => Some(i + 1),
            None => None,
        }
    }
}

proof fn lemma_find_characterization(s: Seq<char>, c: char, i: int)
    requires
        0 <= i <= s.len(),
        forall|j: int| 0 <= j < i ==> s[j] != c,
        i < s.len() ==> s[i] == c,
    ensures
        i < s.len() ==> spec_find(s, c) == Some(i),
        i == s.len() ==> spec_find(s, c) is None,
    decreases i + 1,
{
    if s.len() == 0 {
    } else if s[0] == c {
        assert(i == 0);
    } else {
        assert(i > 0 || i < s.len());
        let t = s.drop_first();
        assert(forall|j: int| 0 <= j < i - 1 ==> t[j] == s[j + 1] && t[j] != c);
        lemma_find_characterization(t, c, i - 1);
    }
}

/// First index of `c` in `s`, by linear scan.
pub fn find_char(s: &str, c: char) -> (r: Option<usize>)
    ensures
        match r {
            Some(i) => spec_find(s@, c) == Some(i as int),
            None => spec_find(s@, c) is None,
        },
{
    let len = s.unicode_len();
    let mut i: usize = 0;
    while i < len
        invariant
            i <= len,
            len == s@.len(),
            forall|j: int| 0 <= j < i ==> s@[j] != c,
        decreases len - i,
    {
        if s.get_char(i) == c {
            proof {
                lemma_find_characterization(s@, c, i as int);
            }
            return Some(i);
        }
        i += 1;
    }
    proof {
        lemma_find_characterization(s@, c, len as int);
    }
    None
}

/// Character-wise string equality, stated over the views.
pub fn str_eq(a: &str, b: &str) -> (r: bool)
    ensures
        r == (a@ == b@),
{
    let alen = a.unicode_len();
    let blen = b.unicode_len();
    if alen != blen {
        return false;
    }
    let mut i: usize = 0;
    while i < alen
        invariant
            i <= alen,
            alen == a@.len(),
            alen == b@.len(),
            forall|j: int| 0 <= j < i ==> a@[j] == b@[j],
        decreases alen - i,
    {
        if a.get_char(i) != b.get_char(i) {
            assert(a@ != b@);
            return false;
        }
        i += 1;
    }
    proof {
        assert(a@ =~= b@);
    }
    true
}

proof fn lemma_trim_left_at(s: Seq<char>, a: int)
    requires
        0 <= a <= s.len(),
        forall|j: int| 0 <= j < a ==> is_trim_char(s[j]),
        a < s.len() ==> !is_trim_char(s[a]),
    ensures
        trim_left(s) == s.subrange(a, s.len() as int),
    decreases a + 1,
{
    if a == 0 {
        assert(s.subrange(0, s.len() as int) =~= s);
    } else {
        let t = s.drop_first();
        assert(forall|j: int| 0 <= j < a - 1 ==> t[j] == s[j + 1] && is_trim_char(t[j]));
        lemma_trim_left_at(t, a - 1);
        assert(t.subrange(a - 1, t.len() as int) =~= s.subrange(a, s.len() as int));
    }
}

proof fn lemma_trim_right_at(s: Seq<char>, b: int)
    requires
        0 <= b <= s.len(),
        forall|j: int| b <= j < s.len() ==> is_trim_char(s[j]),
        b > 0 ==> !is_trim_char(s[b - 1]),
    ensures
        trim_right(s) == s.subrange(0, b),
    decreases s.len() - b + 1,
{
    if b == s.len() {
        assert(s.subrange(0, s.len() as int) =~= s);
    } else {
        let t = s.drop_last();
        assert(forall|j: int| b <= j < t.len() ==> is_trim_char(t[j]));
        lemma_trim_right_at(t, b);
        assert(t.subrange(0, b) =~= s.subrange(0, b));
    }
}

/// Strips spaces, tabs, carriage returns and newlines from both ends.
pub fn trim_spaces_and_newline(s: &str) -> (r: &str)
    ensures
        r@ == spec_trim(s@),
{
    let len = s.unicode_len();
    let mut a: usize = 0;
    while a < len && is_trim_char_exec(s.get_char(a))
        invariant
            a <= len,
            len == s@.len(),
            forall|j: int| 0 <= j < a ==> is_trim_char(s@[j]),
        decreases len - a,
    {
        a += 1;
    }
    proof {
        lemma_trim_left_at(s@, a as int);
    }
    if a == len {
        let r = s.substring_char(a, len);
        proof {
            assert(trim_right(s@.subrange(a as int, len as int)) =~= s@.subrange(
                a as int,
                len as int,
            ));
        }
        return r;
    }
    let mut b: usize = len;
    while b > a && is_trim_char_exec(s.get_char(b - 1))
        invariant
            a <= b <= len,
            len == s@.len(),
            a < len && !is_trim_char(s@[a as int]),
            forall|j: int| b <= j < len ==> is_trim_char(s@[j]),
        decreases b,
    {
        b -= 1;
    }
    let r = s.substring_char(a, b);
    proof {
        let u = s@.subrange(a as int, len as int);
        assert(forall|j: int| b - a <= j < u.len() ==> is_trim_char(u[j]));
        assert(b > a ==> !is_trim_char(u[b - a - 1]));
        lemma_trim_right_at(u, b - a);
        assert(u.subrange(0, b - a) =~= s@.subrange(a as int, b as int));
    }
    r
}

/// Executable twin of `is_trim_char`.
pub fn is_trim_char_exec(c: char) -> (r: bool)
    ensures
        r == is_trim_char(c),
{
    c == ' ' || c == '\t' || c == '\r' || c == '\n'
}

/// `s` split at every newline; splitting the empty text yields one empty line.
pub open spec fn spec_split_lines(s: Seq<char>) -> Seq<Seq<char>>
    decreases s.len(),
{
    if s.len() == 0 {
        seq![Seq::<char>::empty()]
    } else if s[0] == '\n' {
        seq![Seq::<char>::empty()] + spec_split_lines(s.drop_first())
    } else {
        let rest = spec_split_lines(s.drop_first());
        seq![seq![s[0]] + rest[0]] + rest.drop_first()
    }
}

proof fn lemma_split_lines_nonempty(s: Seq<char>)
    ensures
        spec_split_lines(s).len() > 0,
    decreases s.len(),
{
    if s.len() == 0 {
    } else {
        lemma_split_lines_nonempty(s.drop_first());
    }
}

proof fn lemma_split_lines_no_newline(s: Seq<char>)
    requires
        forall|j: int| 0 <= j < s.len() ==> s[j] != '\n',
    ensures
        spec_split_lines(s) == seq![s],
    decreases s.len(),
{
    if s.len() == 0 {
        assert(Seq::<char>::empty() =~= s);
        assert(seq![Seq::<char>::empty()] =~= seq![s]);
    } else {
        let t = s.drop_first();
        assert(forall|j: int| 0 <= j < t.len() ==> t[j] == s[j + 1] && t[j] != '\n');
        lemma_split_lines_no_newline(t);
        let rest = spec_split_lines(t);
        assert(rest[0] == t);
        assert(seq![s[0]] + t =~= s);
        assert(rest.drop_first() =~= Seq::<Seq<char>>::empty());
        assert(seq![seq![s[0]] + rest[0]] + rest.drop_first() =~= seq![s]);
    }
}

proof fn lemma_split_lines_first(s: Seq<char>, i: int)
    requires
        0 <= i < s.len(),
        s[i] == '\n',
        forall|j: int| 0 <= j < i ==> s[j] != '\n',
    ensures
        spec_split_lines(s) == seq![s.subrange(0, i)] + spec_split_lines(
            s.subrange(i + 1, s.len() as int),
        ),
    decreases i,
{
    if i == 0 {
        assert(s.drop_first() =~= s.subrange(1, s.len() as int));
        assert(s.subrange(0, 0) =~= Seq::<char>::empty());
    } else {
        let t = s.drop_first();
        assert(forall|j: int| 0 <= j < i - 1 ==> t[j] == s[j + 1] && t[j] != '\n');
        assert(t[i - 1] == s[i]);
        lemma_split_lines_first(t, i - 1);
        let rest = spec_split_lines(t);
        lemma_split_lines_nonempty(t.subrange(i, t.len() as int));
        assert(rest == seq![t.subrange(0, i - 1)] + spec_split_lines(t.subrange(i, t.len() as int)));
        assert(rest[0] == t.subrange(0, i - 1));
        assert(seq![s[0]] + t.subrange(0, i - 1) =~= s.subrange(0, i));
        assert(t.subrange(i, t.len() as int) =~= s.subrange(i + 1, s.len() as int));
        assert(rest.drop_first() =~= spec_split_lines(s.subrange(i + 1, s.len() as int)));
        assert(seq![seq![s[0]] + rest[0]] + rest.drop_first() =~= seq![s.subrange(0, i)]
            + spec_split_lines(s.subrange(i + 1, s.len() as int)));
    }
}

/// View of an optional string.
pub open spec fn opt_view(o: Option<String>) -> Option<Seq<char>> {
    match o {
        Some(s) => Some(s@),
        None => None,
    }
}

/// The views of the produced strings.
pub open spec fn views_of(v: Seq<String>) -> Seq<Seq<char>> {
    v.map_values(|t: String| t@)
}

/// Splits `s` into its newline-separated lines.
pub fn split_lines(s: &str) -> (r: Vec<String>)
    ensures
        views_of(r@) == spec_split_lines(s@),
{
    let mut out: Vec<String> = Vec::new();
    let mut rest: &str = s;
    loop
        invariant
            spec_split_lines(s@) == views_of(out@) + spec_split_lines(rest@),
        decreases rest@.len(),
    {
        let rest_len = rest.unicode_len();
        match find_char(rest, '\n') {
            Some(i) => {
                proof {
                    lemma_find_is_first(rest@, '\n', i as int);
                    lemma_split_lines_first(rest@, i as int);
                }
                let line = rest.substring_char(0, i);
                let ghost prev = out@;
                out.push(line.to_owned());
                proof {
                    assert(views_of(out@) =~= views_of(prev) + seq![line@]);
                    assert(views_of(prev) + (seq![rest@.subrange(0, i as int)]
                        + spec_split_lines(rest@.subrange(i + 1, rest@.len() as int))) =~= views_of(
                        out@,
                    ) + spec_split_lines(rest@.subrange(i + 1, rest@.len() as int)));
                }
                rest = rest.substring_char(i + 1, rest_len);
            },
            None => {
                proof {
                    lemma_find_none_no_occurrence(rest@, '\n');
                    lemma_split_lines_no_newline(rest@);
                }
                let ghost prev = out@;
                out.push(rest.to_owned());
                proof {
                    assert(views_of(out@) =~= views_of(prev) + seq![rest@]);
                    assert(views_of(out@) =~= views_of(prev) + spec_split_lines(rest@));
                }
                return out;
            },
        }
    }
}

pub proof fn lemma_find_is_first(s: Seq<char>, c: char, i: int)
    requires
        spec_find(s, c) == Some(i),
    ensures
        0 <= i < s.len(),
        s[i] == c,
        forall|j: int| 0 <= j < i ==> s[j] != c,
    decreases s.len(),
{
    if s.len() == 0 {
    } else if s[0] == c {
    } else {
        let t = s.drop_first();
        lemma_find_is_first(t, c, i - 1);
        assert forall|j: int| 1 <= j < i implies s[j] != c by {
            assert(s[j] == t[j - 1]);
        }
    }
}

pub proof fn lemma_find_none_no_occurrence(s: Seq<char>, c: char)
    requires
        spec_find(s, c) is None,
    ensures
        forall|j: int| 0 <= j < s.len() ==> s[j] != c,
    decreases s.len(),
{
    if s.len() == 0 {
    } else {
        let t = s.drop_first();
        lemma_find_none_no_occurrence(t, c);
        assert(forall|j: int| 1 <= j < s.len() ==> s[j] == t[j - 1] && s[j] != c);
    }
}

} // verus!
