use vstd::prelude::*;

verus! {

/// The labels of a dotted name, as splitting on every `.` yields them:
/// an empty name has one empty label, and two adjacent dots enclose an empty label.
pub open spec fn split_labels(s: Seq<char>) -> Seq<Seq<char>>
    decreases s.len(),
{
    if s.len() == 0 {
        seq![Seq::<char>::empty()]
    } else {
        let rest = split_labels(s.drop_last());
        if s.last() == '.' {
            rest.push(Seq::<char>::empty())
        } else {
            rest.update(rest.len() - 1, rest.last().push(s.last()))
        }
    }
}

/// No label that splitting yields holds a dot; with `lemma_join_split` this
/// pins the labels down: they are the maximal dot-free runs of the text.
pub proof fn lemma_split_labels_have_no_dots(s: Seq<char>)
    ensures
        forall|i: int, j: int|
            0 <= i < split_labels(s).len() && 0 <= j < split_labels(s)[i].len() ==> #[trigger] split_labels(
                s,
            )[i][j] != '.',
    decreases s.len(),
{
    if s.len() > 0 {
        lemma_split_labels_have_no_dots(s.drop_last());
        lemma_split_labels_nonempty(s.drop_last());
        let rest = split_labels(s.drop_last());
        assert forall|i: int, j: int|
            0 <= i < split_labels(s).len() && 0 <= j < split_labels(s)[i].len() implies #[trigger] split_labels(
            s,
        )[i][j] != '.' by {
            if s.last() == '.' {
                if i < rest.len() {
                    assert(split_labels(s)[i] == rest[i]);
                }
            } else {
                if i < rest.len() - 1 {
                    assert(split_labels(s)[i] == rest[i]);
                } else {
                    assert(split_labels(s)[i] == rest.last().push(s.last()));
                    if j < rest.last().len() {
                        assert(split_labels(s)[i][j] == rest[rest.len() - 1][j]);
                    }
                }
            }
        }
    }
}

pub proof fn lemma_split_labels_nonempty(s: Seq<char>)
    ensures
        split_labels(s).len() >= 1,
    decreases s.len(),
{
    if s.len() > 0 {
        lemma_split_labels_nonempty(s.drop_last());
    }
}

/// The characters of a string slice.
pub fn chars_of(s: &str) -> (r: Vec<char>)
    ensures
        r@ == s@,
{
    let mut r: Vec<char> = Vec::new();
    for c in it: s.chars()
        invariant
            r@ == it.seq().take(it.index() as int),
            it.seq() == s@,
    {
        r.push(c);
    }
    r
}


/// Collects characters into a `String` with `FromIterator<&char> for String`
/// (standard library); the contract claims that the string holds exactly those
/// characters, in order.
#[verifier::external_body]
pub(crate) fn string_from_chars(cs: &[char]) -> (r: String)
    ensures
        r@ == cs@,
{
    cs.iter().collect()
}

/// The texts held by a vector of character vectors.
pub open spec fn labels_of(v: Seq<Vec<char>>) -> Seq<Seq<char>> {
    v.map_values(|l: Vec<char>| l@)
}

/// Splits a sequence of characters into its dot-separated labels.
pub fn split_labels_exec(s: &[char]) -> (r: Vec<Vec<char>>)
    ensures
        labels_of(r@) == split_labels(s@),
{
    let mut labels: Vec<Vec<char>> = Vec::new();
    let mut cur: Vec<char> = Vec::new();
    let mut i: usize = 0;
    while i < s.len()
        invariant
            i <= s.len(),
            labels_of(labels@).push(cur@) == split_labels(s@.take(i as int)),
        decreases s.len() - i,
    {
        let ghost before = labels_of(labels@).push(cur@);
        assert(s@.take(i + 1).drop_last() =~= s@.take(i as int));
        assert(s@.take(i + 1).last() == s[i as int]);
        if s[i] == '.' {
            labels.push(cur);
            cur = Vec::new();
            assert(labels_of(labels@).push(cur@) =~= before.push(Seq::<char>::empty()));
        } else {
            cur.push(s[i]);
            assert(labels_of(labels@).push(cur@) =~= before.update(
                before.len() - 1,
                before.last().push(s[i as int]),
            ));
        }
        i = i + 1;
    }
    assert(s@.take(s.len() as int) =~= s@);
    labels.push(cur);
    labels
}

/// The ASCII lower-case form of a character, as a code point: ASCII upper-case
/// letters map to their lower-case letters, every other character to itself.
pub open spec fn ascii_lower(c: char) -> int {
    if 'A' <= c && c <= 'Z' {
        (c as u32) + 32
    } else {
        c as u32 as int
    }
}

/// Two texts are equal when ASCII letters are compared without regard to case.
pub open spec fn eq_ignore_ascii_case(a: Seq<char>, b: Seq<char>) -> bool {
    &&& a.len() == b.len()
    &&& forall|i: int| 0 <= i < a.len() ==> #[trigger] ascii_lower(a[i]) == ascii_lower(b[i])
}

/// The same character, or the same ASCII letter in upper and lower case.
pub open spec fn same_ignoring_ascii_case(c: char, d: char) -> bool {
    ||| c == d
    ||| 'A' <= c && c <= 'Z' && d as u32 == c as u32 + 32
    ||| 'A' <= d && d <= 'Z' && c as u32 == d as u32 + 32
}

proof fn lemma_ascii_lower_char(c: char, d: char)
    ensures
        (ascii_lower(c) == ascii_lower(d)) <==> same_ignoring_ascii_case(c, d),
{
}

/// Two texts are equal without regard to ASCII case exactly when they have the
/// same length and, place by place, the same character or the same ASCII letter
/// once upper-case and once lower-case; no other characters are confused.
pub proof fn lemma_eq_ignore_ascii_case_places(a: Seq<char>, b: Seq<char>)
    ensures
        eq_ignore_ascii_case(a, b) <==> (a.len() == b.len() && forall|i: int|
            0 <= i < a.len() ==> #[trigger] same_ignoring_ascii_case(a[i], b[i])),
{
    if a.len() == b.len() {
        if eq_ignore_ascii_case(a, b) {
            assert forall|i: int| 0 <= i < a.len() implies #[trigger] same_ignoring_ascii_case(
                a[i],
                b[i],
            ) by {
                assert(ascii_lower(a[i]) == ascii_lower(b[i]));
                lemma_ascii_lower_char(a[i], b[i]);
            }
        }
        if forall|i: int| 0 <= i < a.len() ==> #[trigger] same_ignoring_ascii_case(a[i], b[i]) {
            assert forall|i: int| 0 <= i < a.len() implies #[trigger] ascii_lower(a[i])
                == ascii_lower(b[i]) by {
                assert(same_ignoring_ascii_case(a[i], b[i]));
                lemma_ascii_lower_char(a[i], b[i]);
            }
        }
    }
}

fn ascii_lower_exec(c: char) -> (r: u32)
    ensures
        r == ascii_lower(c),
{
    if 'A' <= c && c <= 'Z' {
        (c as u32) + 32
    } else {
        c as u32
    }
}

/// Compares two texts, ignoring the case of ASCII letters.
pub fn eq_ignore_ascii_case_exec(a: &[char], b: &[char]) -> (r: bool)
    ensures
        r == eq_ignore_ascii_case(a@, b@),
{
    if a.len() != b.len() {
        return false;
    }
    let mut i: usize = 0;
    while i < a.len()
        invariant
            i <= a.len(),
            a.len() == b.len(),
            forall|j: int| 0 <= j < i ==> #[trigger] ascii_lower(a[j]) == ascii_lower(b[j]),
        decreases a.len() - i,
    {
        if ascii_lower_exec(a[i]) != ascii_lower_exec(b[i]) {
            return false;
        }
        i = i + 1;
    }
    true
}

/// Compares two texts exactly.
pub fn chars_eq(a: &[char], b: &[char]) -> (r: bool)
    ensures
        r == (a@ == b@),
{
    if a.len() != b.len() {
        return false;
    }
    let mut i: usize = 0;
    while i < a.len()
        invariant
            i <= a.len(),
            a.len() == b.len(),
            forall|j: int| 0 <= j < i ==> a[j] == b[j],
        decreases a.len() - i,
    {
        if a[i] != b[i] {
            return false;
        }
        i = i + 1;
    }
    assert(a@ =~= b@);
    true
}

/// The labels joined with the separator between each two of them.
pub open spec fn join(labels: Seq<Seq<char>>, sep: Seq<char>) -> Seq<char>
    decreases labels.len(),
{
    if labels.len() == 0 {
        Seq::<char>::empty()
    } else if labels.len() == 1 {
        labels[0]
    } else {
        join(labels.drop_last(), sep) + sep + labels.last()
    }
}

/// Appends characters to the end of a vector.
pub fn push_chars(r: &mut Vec<char>, s: &[char])
    ensures
        final(r)@ == old(r)@ + s@,
{
    let mut i: usize = 0;
    while i < s.len()
        invariant
            i <= s.len(),
            r@ == old(r)@ + s@.take(i as int),
        decreases s.len() - i,
    {
        r.push(s[i]);
        i = i + 1;
        assert(r@ =~= old(r)@ + s@.take(i as int));
    }
    assert(s@.take(s.len() as int) =~= s@);
}

/// Joins labels with a separator.
pub fn join_exec(labels: &[Vec<char>], sep: &[char]) -> (r: Vec<char>)
    ensures
        r@ == join(labels_of(labels@), sep@),
{
    let mut r: Vec<char> = Vec::new();
    let mut i: usize = 0;
    while i < labels.len()
        invariant
            i <= labels.len(),
            r@ == join(labels_of(labels@).take(i as int), sep@),
        decreases labels.len() - i,
    {
        assert(labels_of(labels@).take(i + 1).drop_last() =~= labels_of(labels@).take(i as int));
        if i > 0 {
            push_chars(&mut r, sep);
        }
        push_chars(&mut r, labels[i].as_slice());
        i = i + 1;
    }
    assert(labels_of(labels@).take(labels.len() as int) =~= labels_of(labels@));
    r
}

proof fn lemma_join_extend_last(labels: Seq<Seq<char>>, sep: Seq<char>, c: char)
    requires
        labels.len() >= 1,
    ensures
        join(labels.update(labels.len() - 1, labels.last().push(c)), sep) == join(labels, sep).push(
            c,
        ),
{
    let updated = labels.update(labels.len() - 1, labels.last().push(c));
    if labels.len() == 1 {
        assert(updated[0] == labels[0].push(c));
    } else {
        assert(updated.drop_last() =~= labels.drop_last());
        assert(join(updated, sep) == join(labels.drop_last(), sep) + sep + labels.last().push(c));
        assert(join(labels, sep) == join(labels.drop_last(), sep) + sep + labels.last());
        assert(join(labels.drop_last(), sep) + sep + labels.last().push(c) =~= (join(
            labels.drop_last(),
            sep,
        ) + sep + labels.last()).push(c));
    }
}

/// Splitting a text at its dots and joining the labels again with dots gives the
/// text back: a suffix is reported exactly as it was configured.
pub proof fn lemma_join_split(s: Seq<char>)
    ensures
        join(split_labels(s), seq!['.']) == s,
    decreases s.len(),
{
    if s.len() == 0 {
        assert(split_labels(s) =~= seq![Seq::<char>::empty()]);
        assert(s =~= Seq::<char>::empty());
    } else {
        let rest = split_labels(s.drop_last());
        lemma_join_split(s.drop_last());
        lemma_split_labels_nonempty(s.drop_last());
        if s.last() == '.' {
            let r = rest.push(Seq::<char>::empty());
            assert(r.drop_last() =~= rest);
            assert(join(r, seq!['.']) == join(rest, seq!['.']) + seq!['.'] + Seq::<char>::empty());
            assert(s =~= s.drop_last() + seq!['.'] + Seq::<char>::empty());
        } else {
            lemma_join_extend_last(rest, seq!['.'], s.last());
            assert(s =~= s.drop_last().push(s.last()));
        }
    }
}

} // verus!
