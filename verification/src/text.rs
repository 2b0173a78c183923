//! Character-sequence utilities the extraction logic is built on: trimming,
//! substring search, line splitting and joining, and decimal rendering.
use vstd::prelude::*;

verus! {

/// Characters stripped by trimming: the ASCII whitespace set.
pub open spec fn is_blank(c: char) -> bool {
    c == ' ' || c == '\t' || c == '\r' || c == '\n'
}

/// Runtime test for [`is_blank`].
pub fn blank_char(c: char) -> (r: bool)
    ensures
        r == is_blank(c),
{
    c == ' ' || c == '\t' || c == '\r' || c == '\n'
}

/// The characters of a string slice, in order.
pub fn chars_of(s: &str) -> (r: Vec<char>)
    ensures
        r@ == s@,
{
    let n = s.unicode_len();
    let mut v: Vec<char> = Vec::new();
    let mut i: usize = 0;
    while i < n
        invariant
            i <= n,
            n == s@.len(),
            v@ == s@.take(i as int),
        decreases n - i,
    {
        let c = s.get_char(i);
        v.push(c);
        proof {
            assert(s@.take(i as int).push(s@[i as int]) =~= s@.take(i + 1 as int));
        }
        i = i + 1;
    }
    proof {
        assert(s@.take(n as int) =~= s@);
    }
    v
}

/// Relies on `String: FromIterator<char>` of std: collecting characters
/// yields the string holding exactly those characters in order.
#[verifier::external_body]
pub fn string_of_chars(v: &Vec<char>) -> (r: String)
    ensures
        r@ == v@,
{
    v.iter().collect()
}

/// A sequence with its leading blanks removed.
pub open spec fn trim_front(s: Seq<char>) -> Seq<char>
    decreases s.len(),
{
    if s.len() > 0 && is_blank(s[0]) {
        trim_front(s.drop_first())
    } else {
        s
    }
}

/// A sequence with its trailing blanks removed.
pub open spec fn trim_back(s: Seq<char>) -> Seq<char>
    decreases s.len(),
{
    if s.len() > 0 && is_blank(s.last()) {
        trim_back(s.drop_last())
    } else {
        s
    }
}

/// A sequence with leading and trailing blanks removed.
pub open spec fn spec_trim(s: Seq<char>) -> Seq<char> {
    trim_back(trim_front(s))
}

proof fn lemma_trim_front_skip(s: Seq<char>, a: int)
    requires
        0 <= a <= s.len(),
        forall|j: int| 0 <= j < a ==> is_blank(s[j]),
        a < s.len() ==> !is_blank(s[a]),
    ensures
        trim_front(s) =~= s.skip(a),
    decreases a,
{
    if a == 0 {
        assert(s.skip(0) =~= s);
    } else {
        assert(is_blank(s[0]));
        lemma_trim_front_skip(s.drop_first(), a - 1);
        assert(s.drop_first().skip(a - 1) =~= s.skip(a));
    }
}

proof fn lemma_trim_back_take(s: Seq<char>, b: int)
    requires
        0 <= b <= s.len(),
        forall|j: int| b <= j < s.len() ==> is_blank(s[j]),
        b > 0 ==> !is_blank(s[b - 1]),
    ensures
        trim_back(s) =~= s.take(b),
    decreases s.len() - b,
{
    if b == s.len() {
        assert(s.take(b) =~= s);
        if s.len() > 0 {
            assert(!is_blank(s.last()));
        }
    } else {
        assert(is_blank(s.last()));
        lemma_trim_back_take(s.drop_last(), b);
        assert(s.drop_last().take(b) =~= s.take(b));
    }
}

/// The trimmed copy of a character vector.
pub fn trim_chars(v: &Vec<char>) -> (r: Vec<char>)
    ensures
        r@ == spec_trim(v@),
{
    let n = v.len();
    let mut a: usize = 0;
    while a < n && blank_char(v[a])
        invariant
            a <= n,
            n == v@.len(),
            forall|j: int| 0 <= j < a ==> is_blank(v@[j]),
        decreases n - a,
    {
        a = a + 1;
    }
    let mut b: usize = n;
    while b > a && blank_char(v[b - 1])
        invariant
            a <= b <= n,
            n == v@.len(),
            forall|j: int| b <= j < n ==> is_blank(v@[j]),
        decreases b,
    {
        b = b - 1;
    }
    let mut r: Vec<char> = Vec::new();
    let mut i: usize = a;
    while i < b
        invariant
            a <= i <= b <= n,
            n == v@.len(),
            r@ == v@.subrange(a as int, i as int),
        decreases b - i,
    {
        let c = v[i];
        r.push(c);
        proof {
            assert(v@.subrange(a as int, i as int).push(v@[i as int]) =~= v@.subrange(
                a as int,
                i + 1 as int,
            ));
        }
        i = i + 1;
    }
    proof {
        lemma_trim_front_skip(v@, a as int);
        if b == a {
            lemma_trim_back_take(v@.skip(a as int), 0);
        } else {
            assert(!is_blank(v@[b - 1 as int]));
            assert(v@.skip(a as int)[b - a - 1 as int] == v@[b - 1 as int]);
            lemma_trim_back_take(v@.skip(a as int), b - a as int);
        }
        assert(v@.skip(a as int).take(b - a as int) =~= v@.subrange(a as int, b as int));
    }
    r
}

/// Trimming is idempotent.
pub proof fn lemma_trim_idempotent(s: Seq<char>)
    ensures
        spec_trim(spec_trim(s)) == spec_trim(s),
{
    let t = spec_trim(s);
    lemma_trim_back_no_trailing_blank(trim_front(s));
    lemma_trim_front_no_leading_blank(s);
    if t.len() > 0 {
        lemma_trim_front_keeps_prefix(trim_front(s));
        assert(trim_front(t) =~= t);
        assert(trim_back(t) =~= t);
    } else {
        assert(trim_front(t) =~= t);
        assert(trim_back(t) =~= t);
    }
}

proof fn lemma_trim_front_no_leading_blank(s: Seq<char>)
    ensures
        trim_front(s).len() > 0 ==> !is_blank(trim_front(s)[0]),
    decreases s.len(),
{
    if s.len() > 0 && is_blank(s[0]) {
        lemma_trim_front_no_leading_blank(s.drop_first());
    }
}

proof fn lemma_trim_back_no_trailing_blank(s: Seq<char>)
    ensures
        trim_back(s).len() > 0 ==> !is_blank(trim_back(s).last()),
        trim_back(s).len() > 0 && !is_blank(s[0]) ==> trim_back(s)[0] == s[0],
        trim_back(s).len() <= s.len(),
    decreases s.len(),
{
    if s.len() > 0 && is_blank(s.last()) {
        lemma_trim_back_no_trailing_blank(s.drop_last());
    }
}

proof fn lemma_trim_front_keeps_prefix(s: Seq<char>)
    requires
        trim_back(s).len() > 0,
        !is_blank(s[0]),
    ensures
        !is_blank(trim_back(s)[0]),
    decreases s.len(),
{
    lemma_trim_back_no_trailing_blank(s);
}

proof fn lemma_trim_front_excludes(s: Seq<char>, c: char)
    requires
        !s.contains(c),
    ensures
        !trim_front(s).contains(c),
    decreases s.len(),
{
    if s.len() > 0 && is_blank(s[0]) {
        assert(!s.drop_first().contains(c)) by {
            if s.drop_first().contains(c) {
                let i = choose|i: int| 0 <= i < s.drop_first().len() && s.drop_first()[i] == c;
                assert(s[i + 1] == c);
            }
        }
        lemma_trim_front_excludes(s.drop_first(), c);
    }
}

proof fn lemma_trim_back_excludes(s: Seq<char>, c: char)
    requires
        !s.contains(c),
    ensures
        !trim_back(s).contains(c),
    decreases s.len(),
{
    if s.len() > 0 && is_blank(s.last()) {
        assert(!s.drop_last().contains(c)) by {
            if s.drop_last().contains(c) {
                let i = choose|i: int| 0 <= i < s.drop_last().len() && s.drop_last()[i] == c;
                assert(s[i] == c);
            }
        }
        lemma_trim_back_excludes(s.drop_last(), c);
    }
}

/// Trimming never introduces a character the text did not hold.
pub proof fn lemma_trim_excludes(s: Seq<char>, c: char)
    requires
        !s.contains(c),
    ensures
        !spec_trim(s).contains(c),
{
    lemma_trim_front_excludes(s, c);
    lemma_trim_back_excludes(trim_front(s), c);
}

/// The needle `n` occurs in the haystack `h` at position `i`.
pub open spec fn contains_at(h: Seq<char>, n: Seq<char>, i: int) -> bool {
    0 <= i && i + n.len() <= h.len() && h.subrange(i, i + n.len()) == n
}

/// The needle `n` occurs somewhere in the haystack `h`.
pub open spec fn spec_contains(h: Seq<char>, n: Seq<char>) -> bool {
    exists|i: int| contains_at(h, n, i)
}

/// Whether `n` occurs in `h` starting at position `i`.
fn match_at(h: &Vec<char>, n: &Vec<char>, i: usize) -> (r: bool)
    requires
        i + n@.len() <= h@.len(),
    ensures
        r == contains_at(h@, n@, i as int),
{
    let _haystack_len = h.len();
    let mut j: usize = 0;
    while j < n.len()
        invariant
            j <= n@.len(),
            i + n@.len() <= h@.len(),
            h@.len() <= usize::MAX,
            forall|k: int| 0 <= k < j ==> h@[i + k] == n@[k],
        decreases n@.len() - j,
    {
        if h[i + j] != n[j] {
            proof {
                assert(h@.subrange(i as int, i + n@.len())[j as int] != n@[j as int]);
            }
            return false;
        }
        j = j + 1;
    }
    proof {
        assert(h@.subrange(i as int, i + n@.len()) =~= n@);
    }
    true
}

/// Whether the needle occurs anywhere in the haystack.
pub fn contains_chars(h: &Vec<char>, n: &Vec<char>) -> (r: bool)
    ensures
        r == spec_contains(h@, n@),
{
    if n.len() > h.len() {
        proof {
            assert(forall|i: int| !contains_at(h@, n@, i));
        }
        return false;
    }
    if n.len() == 0 {
        proof {
            assert(h@.subrange(0, 0) =~= n@);
            assert(contains_at(h@, n@, 0));
        }
        return true;
    }
    let last = h.len() - n.len();
    let mut i: usize = 0;
    while i <= last
        invariant
            i <= last + 1,
            last + n@.len() == h@.len(),
            h@.len() <= usize::MAX,
            n@.len() >= 1,
            forall|k: int| 0 <= k < i ==> !contains_at(h@, n@, k),
        decreases last + 1 - i,
    {
        if match_at(h, n, i) {
            return true;
        }
        i = i + 1;
    }
    proof {
        assert(forall|k: int| k > last ==> !contains_at(h@, n@, k));
    }
    false
}

/// Split at every newline; the result always has one more part than the
/// text has newline characters.
pub open spec fn spec_split_nl(s: Seq<char>) -> Seq<Seq<char>>
    decreases s.len(),
{
    if s.len() == 0 {
        seq![Seq::<char>::empty()]
    } else if s[0] == '\n' {
        seq![Seq::<char>::empty()] + spec_split_nl(s.drop_first())
    } else {
        let rest = spec_split_nl(s.drop_first());
        seq![seq![s[0]] + rest[0]] + rest.skip(1)
    }
}

proof fn lemma_split_nl_nonempty(s: Seq<char>)
    ensures
        spec_split_nl(s).len() >= 1,
    decreases s.len(),
{
    if s.len() > 0 {
        lemma_split_nl_nonempty(s.drop_first());
    }
}

/// The lines of a text: split at newlines, with one trailing newline (if
/// any) not opening a final empty line, and no lines at all in empty text.
pub open spec fn spec_lines(s: Seq<char>) -> Seq<Seq<char>> {
    if s.len() == 0 {
        Seq::<Seq<char>>::empty()
    } else if s.last() == '\n' {
        spec_split_nl(s.drop_last())
    } else {
        spec_split_nl(s)
    }
}

/// Split a text into its lines.
pub fn split_lines(v: &Vec<char>) -> (r: Vec<Vec<char>>)
    ensures
        r.deep_view() == spec_lines(v@),
{
    if v.len() == 0 {
        let r: Vec<Vec<char>> = Vec::new();
        proof {
            assert(r.deep_view() =~~= spec_lines(v@));
        }
        return r;
    }
    let end = if v[v.len() - 1] == '\n' {
        v.len() - 1
    } else {
        v.len()
    };
    let mut parts: Vec<Vec<char>> = Vec::new();
    parts.push(Vec::new());
    proof {
        assert(parts.deep_view() =~~= spec_split_nl(v@.subrange(end as int, end as int)));
    }
    let mut i: usize = end;
    while i > 0
        invariant
            i <= end <= v@.len(),
            parts.deep_view() == spec_split_nl(v@.subrange(i as int, end as int)),
            parts.len() >= 1,
        decreases i,
    {
        let c = v[i - 1];
        let ghost old_parts = parts.deep_view();
        let ghost tail = v@.subrange(i as int, end as int);
        let ghost whole = v@.subrange(i - 1 as int, end as int);
        proof {
            assert(whole.len() > 0);
            assert(whole[0] == v@[i - 1 as int]);
            assert(whole.drop_first() =~= tail);
        }
        if c == '\n' {
            parts.insert(0, Vec::new());
            proof {
                assert(parts.deep_view() =~~= seq![Seq::<char>::empty()] + old_parts);
                assert(parts.deep_view() =~~= spec_split_nl(whole));
            }
        } else {
            let mut first = parts.remove(0);
            first.insert(0, c);
            parts.insert(0, first);
            proof {
                assert(parts.deep_view() =~~= seq![seq![v@[i - 1 as int]] + old_parts[0]]
                    + old_parts.skip(1));
                assert(parts.deep_view() =~~= spec_split_nl(whole));
            }
        }
        i = i - 1;
    }
    proof {
        assert(v@.subrange(0, end as int) =~= if v@.last() == '\n' {
            v@.drop_last()
        } else {
            v@
        });
    }
    parts
}

/// Lines joined with one newline after each line.
pub open spec fn spec_join_nl(ls: Seq<Seq<char>>) -> Seq<char>
    decreases ls.len(),
{
    if ls.len() == 0 {
        Seq::<char>::empty()
    } else {
        ls[0] + seq!['\n'] + spec_join_nl(ls.drop_first())
    }
}

proof fn lemma_join_nl_push(ls: Seq<Seq<char>>, l: Seq<char>)
    ensures
        spec_join_nl(ls.push(l)) =~= spec_join_nl(ls) + l + seq!['\n'],
    decreases ls.len(),
{
    if ls.len() == 0 {
        assert(ls.push(l).drop_first() =~= Seq::<Seq<char>>::empty());
        assert(ls.push(l)[0] == l);
        assert(spec_join_nl(Seq::<Seq<char>>::empty()) == Seq::<char>::empty());
        assert(spec_join_nl(ls.push(l)) =~= l + seq!['\n']);
        assert(spec_join_nl(ls) + l + seq!['\n'] =~= l + seq!['\n']);
    } else {
        assert(ls.push(l).drop_first() =~= ls.drop_first().push(l));
        assert(ls.push(l)[0] == ls[0]);
        lemma_join_nl_push(ls.drop_first(), l);
    }
}

/// Join lines with one newline after each.
pub fn join_nl(ls: &Vec<Vec<char>>) -> (r: Vec<char>)
    ensures
        r@ == spec_join_nl(ls.deep_view()),
{
    let mut r: Vec<char> = Vec::new();
    let mut i: usize = 0;
    while i < ls.len()
        invariant
            i <= ls@.len(),
            r@ == spec_join_nl(ls.deep_view().take(i as int)),
        decreases ls@.len() - i,
    {
        let ghost before = r@;
        let mut j: usize = 0;
        let line = &ls[i];
        while j < line.len()
            invariant
                j <= line@.len(),
                r@ == before + line@.take(j as int),
            decreases line@.len() - j,
        {
            let c = line[j];
            r.push(c);
            proof {
                assert(before + line@.take(j as int) + seq![line@[j as int]] =~= before
                    + line@.take(j + 1 as int));
            }
            j = j + 1;
        }
        r.push('\n');
        proof {
            assert(line@.take(line@.len() as int) =~= line@);
            lemma_join_nl_push(ls.deep_view().take(i as int), ls.deep_view()[i as int]);
            assert(ls.deep_view().take(i as int).push(ls.deep_view()[i as int]) =~~= ls.deep_view()
                .take(i + 1 as int));
            assert(r@ =~= spec_join_nl(ls.deep_view().take(i + 1 as int)));
        }
        i = i + 1;
    }
    proof {
        assert(ls.deep_view().take(ls@.len() as int) =~~= ls.deep_view());
    }
    r
}

proof fn lemma_split_nl_of_clean(l: Seq<char>)
    requires
        !l.contains('\n'),
    ensures
        spec_split_nl(l) =~~= seq![l],
    decreases l.len(),
{
    if l.len() > 0 {
        assert(l[0] != '\n');
        lemma_split_nl_of_clean(l.drop_first());
        assert(seq![l[0]] + l.drop_first() =~= l);
    }
}

proof fn lemma_split_nl_concat(l: Seq<char>, s: Seq<char>)
    requires
        !l.contains('\n'),
    ensures
        spec_split_nl(l + seq!['\n'] + s) =~~= seq![l] + spec_split_nl(s),
    decreases l.len(),
{
    let whole = l + seq!['\n'] + s;
    if l.len() == 0 {
        assert(whole[0] == '\n');
        assert(whole.drop_first() =~= s);
    } else {
        assert(l[0] != '\n');
        assert(whole[0] == l[0]);
        assert(whole.drop_first() =~= l.drop_first() + seq!['\n'] + s);
        lemma_split_nl_concat(l.drop_first(), s);
        lemma_split_nl_nonempty(whole.drop_first());
        assert(seq![whole[0]] + (seq![l.drop_first()] + spec_split_nl(s))[0] =~= l);
    }
}

/// Splitting a joined text recovers the lines, provided no line holds a
/// newline of its own.
pub proof fn lemma_lines_of_join(ls: Seq<Seq<char>>)
    requires
        forall|i: int| 0 <= i < ls.len() ==> !(#[trigger] ls[i]).contains('\n'),
    ensures
        spec_lines(spec_join_nl(ls)) =~~= ls,
    decreases ls.len(),
{
    if ls.len() == 0 {
    } else {
        let l = ls[0];
        let rest = ls.drop_first();
        let s = spec_join_nl(ls);
        assert(s =~= l + seq!['\n'] + spec_join_nl(rest));
        assert(s.last() == '\n') by {
            lemma_join_nl_last(ls);
        }
        if rest.len() == 0 {
            assert(s.drop_last() =~= l);
            lemma_split_nl_of_clean(l);
        } else {
            lemma_join_nl_last(rest);
            assert(spec_join_nl(rest).len() > 0);
            assert(s.drop_last() =~= l + seq!['\n'] + spec_join_nl(rest).drop_last());
            lemma_split_nl_concat(l, spec_join_nl(rest).drop_last());
            lemma_lines_of_join(rest);
            assert(spec_lines(spec_join_nl(rest)) == spec_split_nl(spec_join_nl(rest).drop_last()));
        }
    }
}

proof fn lemma_join_nl_last(ls: Seq<Seq<char>>)
    requires
        ls.len() > 0,
    ensures
        spec_join_nl(ls).len() > 0,
        spec_join_nl(ls).last() == '\n',
    decreases ls.len(),
{
    if ls.drop_first().len() > 0 {
        lemma_join_nl_last(ls.drop_first());
        let rest = spec_join_nl(ls.drop_first());
        assert(spec_join_nl(ls).last() == (ls[0] + seq!['\n'] + rest)[ls[0].len() + 1 + rest.len()
            - 1]);
    } else {
        assert(ls.drop_first() =~= Seq::<Seq<char>>::empty());
        assert(spec_join_nl(Seq::<Seq<char>>::empty()) == Seq::<char>::empty());
        assert(spec_join_nl(ls) =~= ls[0] + seq!['\n']);
        assert(spec_join_nl(ls).last() == '\n');
    }
}

/// Texts joined with a separator between neighbours.
pub open spec fn spec_join_sep(ls: Seq<Seq<char>>, sep: Seq<char>) -> Seq<char>
    decreases ls.len(),
{
    if ls.len() == 0 {
        Seq::<char>::empty()
    } else if ls.len() == 1 {
        ls[0]
    } else {
        ls[0] + sep + spec_join_sep(ls.drop_first(), sep)
    }
}

proof fn lemma_join_sep_push(ls: Seq<Seq<char>>, sep: Seq<char>, l: Seq<char>)
    ensures
        ls.len() == 0 ==> spec_join_sep(ls.push(l), sep) =~= l,
        ls.len() > 0 ==> spec_join_sep(ls.push(l), sep) =~= spec_join_sep(ls, sep) + sep + l,
    decreases ls.len(),
{
    if ls.len() == 0 {
        assert(ls.push(l)[0] == l);
    } else {
        assert(ls.push(l)[0] == ls[0]);
        assert(ls.push(l).drop_first() =~= ls.drop_first().push(l));
        lemma_join_sep_push(ls.drop_first(), sep, l);
        if ls.len() == 1 {
            assert(ls.drop_first().len() == 0);
            assert(spec_join_sep(ls, sep) == ls[0]);
        }
    }
}

/// Join strings with a separator between neighbours.
pub fn join_strings_sep(ls: &Vec<String>, sep: &str) -> (r: Vec<char>)
    ensures
        r@ == spec_join_sep(ls.deep_view(), sep@),
{
    let mut r: Vec<char> = Vec::new();
    let mut i: usize = 0;
    proof {
        assert(ls.deep_view().take(0) =~~= Seq::<Seq<char>>::empty());
    }
    while i < ls.len()
        invariant
            i <= ls@.len(),
            r@ == spec_join_sep(ls.deep_view().take(i as int), sep@),
        decreases ls@.len() - i,
    {
        if i > 0 {
            let mut sep_part = chars_of(sep);
            r.append(&mut sep_part);
        }
        let mut part = chars_of(ls[i].as_str());
        r.append(&mut part);
        proof {
            assert(ls.deep_view()[i as int] =~= ls@[i as int]@);
            lemma_join_sep_push(ls.deep_view().take(i as int), sep@, ls.deep_view()[i as int]);
            assert(ls.deep_view().take(i as int).push(ls.deep_view()[i as int]) =~~= ls.deep_view()
                .take(i + 1 as int));
        }
        i = i + 1;
    }
    proof {
        assert(ls.deep_view().take(ls@.len() as int) =~~= ls.deep_view());
    }
    r
}

/// The needle occurs at `i` and nowhere earlier.
pub open spec fn first_occ_at(h: Seq<char>, n: Seq<char>, i: int) -> bool {
    contains_at(h, n, i) && (forall|j: int| 0 <= j < i ==> !contains_at(h, n, j))
}

/// A first occurrence is unique.
pub proof fn lemma_first_occ_unique(h: Seq<char>, n: Seq<char>, i: int, j: int)
    requires
        first_occ_at(h, n, i),
        first_occ_at(h, n, j),
    ensures
        i == j,
{
}

/// The position of the first occurrence of the needle, if any.
pub fn find_first(h: &Vec<char>, n: &Vec<char>) -> (r: Option<usize>)
    ensures
        r matches Some(i) ==> first_occ_at(h@, n@, i as int),
        (r is None) <==> !spec_contains(h@, n@),
{
    if n.len() > h.len() {
        proof {
            assert(forall|i: int| !contains_at(h@, n@, i));
        }
        return None;
    }
    if n.len() == 0 {
        proof {
            assert(h@.subrange(0, 0) =~= n@);
            assert(contains_at(h@, n@, 0));
        }
        return Some(0);
    }
    let last = h.len() - n.len();
    let mut i: usize = 0;
    while i <= last
        invariant
            i <= last + 1,
            last + n@.len() == h@.len(),
            h@.len() <= usize::MAX,
            n@.len() >= 1,
            forall|k: int| 0 <= k < i ==> !contains_at(h@, n@, k),
        decreases last + 1 - i,
    {
        if match_at(h, n, i) {
            return Some(i);
        }
        i = i + 1;
    }
    proof {
        assert(forall|k: int| k > last ==> !contains_at(h@, n@, k));
    }
    None
}

/// The sequence `s` starts with the prefix `p`.
pub open spec fn spec_starts_with(s: Seq<char>, p: Seq<char>) -> bool {
    s.len() >= p.len() && s.subrange(0, p.len() as int) == p
}

/// Whether `s` starts with the prefix `p`.
pub fn starts_with_chars(s: &Vec<char>, p: &Vec<char>) -> (r: bool)
    ensures
        r == spec_starts_with(s@, p@),
{
    if p.len() > s.len() {
        return false;
    }
    match_at(s, p, 0)
}

/// The character for one decimal digit.
pub open spec fn spec_digit_char(d: nat) -> char {
    if d == 0 {
        '0'
    } else if d == 1 {
        '1'
    } else if d == 2 {
        '2'
    } else if d == 3 {
        '3'
    } else if d == 4 {
        '4'
    } else if d == 5 {
        '5'
    } else if d == 6 {
        '6'
    } else if d == 7 {
        '7'
    } else if d == 8 {
        '8'
    } else {
        '9'
    }
}

/// The decimal rendering of a number, most significant digit first.
pub open spec fn spec_dec(n: nat) -> Seq<char>
    decreases n,
{
    if n < 10 {
        seq![spec_digit_char(n)]
    } else {
        spec_dec(n / 10).push(spec_digit_char(n % 10))
    }
}

fn digit_char(d: u64) -> (r: char)
    requires
        d < 10,
    ensures
        r == spec_digit_char(d as nat),
{
    match d {
        0 => '0',
        1 => '1',
        2 => '2',
        3 => '3',
        4 => '4',
        5 => '5',
        6 => '6',
        7 => '7',
        8 => '8',
        _ => '9',
    }
}

/// The decimal rendering of a number as characters.
pub fn dec_chars(n: u64) -> (r: Vec<char>)
    ensures
        r@ == spec_dec(n as nat),
    decreases n,
{
    if n < 10 {
        let mut r: Vec<char> = Vec::new();
        r.push(digit_char(n));
        proof {
            assert(r@ =~= spec_dec(n as nat));
        }
        r
    } else {
        let mut r = dec_chars(n / 10);
        r.push(digit_char(n % 10));
        r
    }
}

/// The decimal rendering of a number as a string.
pub fn dec_string(n: u64) -> (r: String)
    ensures
        r@ == spec_dec(n as nat),
{
    let v = dec_chars(n);
    string_of_chars(&v)
}

} // verus!
