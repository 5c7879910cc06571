//! Text primitives: the views that the contracts of this crate are stated
//! over, and the scanning functions that the parsers are built from.

use vstd::prelude::*;

verus! {

/// Documented by std: appends the character to the end of the string.
pub assume_specification[ String::push ](s: &mut String, c: char)
    ensures
        final(s)@ == old(s)@.push(c),
;

/// Documented by std: removes the last character and returns it, or returns
/// `None` and leaves the string alone where it is empty.
pub assume_specification[ String::pop ](s: &mut String) -> (r: Option<char>)
    ensures
        old(s)@.len() == 0 ==> r is None && final(s)@ == old(s)@,
        old(s)@.len() > 0 ==> r == Some(old(s)@.last()) && final(s)@ == old(s)@.drop_last(),
;

/// Documented by std: truncates the string, removing all its contents.
pub assume_specification[ String::clear ](s: &mut String)
    ensures
        final(s)@ == Seq::<char>::empty(),
;

/// The text that std's `Debug` writes for a string: in double quotes, with what
/// cannot be shown as it stands escaped.
pub uninterp spec fn debug_text(s: Seq<char>) -> Seq<char>;

/// `<str as Debug>::fmt`, through `format!("{:?}")`. Which characters it
/// escapes depends on tables that are not restated here: the contract says only
/// that the result is a function of the text.
#[verifier::external_body]
pub(crate) fn quoted(s: &str) -> (out: String)
    ensures
        out@ == debug_text(s@),
{
    format!("{:?}", s)
}

/// The text that std's `Debug` writes for a path.
pub uninterp spec fn path_debug_text(s: Seq<char>) -> Seq<char>;

/// `<Path as Debug>::fmt`, through `format!("{:?}")`. It quotes and escapes a
/// path much as `Debug` does a string; the contract says only that the result
/// is a function of the path's text.
#[verifier::external_body]
pub(crate) fn quoted_path(s: &str) -> (out: String)
    ensures
        out@ == path_debug_text(s@),
{
    format!("{:?}", std::path::Path::new(s))
}

/// What a list of strings holds: the text of each, in order.
pub open spec fn texts(v: Seq<String>) -> Seq<Seq<char>> {
    Seq::new(v.len(), |i: int| v[i]@)
}

/// The text of an optional string.
pub open spec fn opt_text(o: Option<String>) -> Option<Seq<char>> {
    match o {
        Some(s) => Some(s@),
        None => None,
    }
}

/// The parts joined into one text, with `sep` between neighbours.
pub open spec fn join(parts: Seq<Seq<char>>, sep: Seq<char>) -> Seq<char>
    decreases parts.len(),
{
    if parts.len() == 0 {
        Seq::empty()
    } else if parts.len() == 1 {
        parts[0]
    } else {
        join(parts.drop_last(), sep) + sep + parts.last()
    }
}

/// The characters that Unicode calls white space.
pub open spec fn is_space(c: char) -> bool {
    let n = c as u32;
    ||| 9 <= n <= 13
    ||| n == 32
    ||| n == 0x85
    ||| n == 0xA0
    ||| n == 0x1680
    ||| 0x2000 <= n <= 0x200A
    ||| n == 0x2028
    ||| n == 0x2029
    ||| n == 0x202F
    ||| n == 0x205F
    ||| n == 0x3000
}

/// The text without its leading white space.
pub open spec fn trim_start(s: Seq<char>) -> Seq<char>
    decreases s.len(),
{
    if s.len() > 0 && is_space(s[0]) {
        trim_start(s.drop_first())
    } else {
        s
    }
}

/// The text without its trailing white space.
pub open spec fn trim_end(s: Seq<char>) -> Seq<char>
    decreases s.len(),
{
    if s.len() > 0 && is_space(s.last()) {
        trim_end(s.drop_last())
    } else {
        s
    }
}

/// The text without white space at either end.
pub open spec fn trimmed(s: Seq<char>) -> Seq<char> {
    trim_end(trim_start(s))
}

/// `part` stands in `s` at position `i`.
pub open spec fn occurs_at(s: Seq<char>, part: Seq<char>, i: int) -> bool {
    &&& 0 <= i
    &&& i + part.len() <= s.len()
    &&& s.subrange(i, i + part.len()) == part
}

/// `part` stands somewhere in `s`.
pub open spec fn contains_text(s: Seq<char>, part: Seq<char>) -> bool {
    exists|i: int| occurs_at(s, part, i)
}

/// `s` begins with `prefix`.
pub open spec fn has_prefix(s: Seq<char>, prefix: Seq<char>) -> bool {
    occurs_at(s, prefix, 0)
}

/// `part` stands in `s` at position `i`, and where `s` goes on before or behind
/// it, a `sep` parts them.
pub open spec fn whole_at(s: Seq<char>, part: Seq<char>, sep: char, i: int) -> bool {
    &&& occurs_at(s, part, i)
    &&& i == 0 || s[i - 1] == sep
    &&& i + part.len() == s.len() || s[i + part.len()] == sep
}

/// `part` stands in `s` as one or more whole pieces between separators.
pub open spec fn stands_whole(s: Seq<char>, part: Seq<char>, sep: char) -> bool {
    exists|i: int| whole_at(s, part, sep, i)
}

/// Each of the parts stands in `s` as whole pieces.
pub open spec fn all_stand_whole(s: Seq<char>, parts: Seq<Seq<char>>, sep: char) -> bool {
    forall|i: int| 0 <= i < parts.len() ==> stands_whole(s, #[trigger] parts[i], sep)
}

/// `value` comes right behind `flag` among the words.
pub open spec fn follows(words: Seq<Seq<char>>, flag: Seq<char>, value: Seq<char>) -> bool {
    exists|i: int|
        0 <= i < words.len() - 1 && #[trigger] words[i] == flag && words[i + 1] == value
}

/// How many characters of `s` stand before the first `c`; all of them where
/// there is none.
pub open spec fn run_before(s: Seq<char>, c: char) -> nat
    decreases s.len(),
{
    if s.len() == 0 || s[0] == c {
        0
    } else {
        1 + run_before(s.drop_first(), c)
    }
}

/// The pieces between the separators: one more than there are separators.
pub open spec fn split(s: Seq<char>, sep: char) -> Seq<Seq<char>>
    decreases s.len(),
    via split_decreases
{
    let n = run_before(s, sep);
    if n >= s.len() {
        seq![s]
    } else {
        seq![s.take(n as int)] + split(s.skip(n as int + 1), sep)
    }
}

#[via_fn]
proof fn split_decreases(s: Seq<char>, sep: char) {
}

/// How many characters of `s` stand before the first white space.
pub open spec fn word_len(s: Seq<char>) -> nat
    decreases s.len(),
{
    if s.len() == 0 || is_space(s[0]) {
        0
    } else {
        1 + word_len(s.drop_first())
    }
}

/// The non-empty runs of characters that white space separates.
pub open spec fn words(s: Seq<char>) -> Seq<Seq<char>>
    decreases s.len(),
{
    if s.len() == 0 {
        Seq::empty()
    } else if is_space(s[0]) {
        words(s.drop_first())
    } else {
        let n = word_len(s);
        if 0 < n <= s.len() {
            seq![s.take(n as int)] + words(s.skip(n as int))
        } else {
            Seq::empty()
        }
    }
}

/// One line without the carriage return that may stand before its newline.
pub open spec fn without_cr(s: Seq<char>) -> Seq<char> {
    if s.len() > 0 && s.last() == '\r' {
        s.drop_last()
    } else {
        s
    }
}

/// The lines of a text: each ends at a newline, which is not part of it, nor
/// is a carriage return just before it; what follows the last newline is a
/// line where it is not empty.
pub open spec fn lines(s: Seq<char>) -> Seq<Seq<char>>
    decreases s.len(),
{
    if s.len() == 0 {
        Seq::empty()
    } else {
        let n = run_before(s, '\n');
        if n >= s.len() {
            seq![s]
        } else {
            seq![without_cr(s.take(n as int))] + lines(s.skip(n as int + 1))
        }
    }
}

/// Pushing a string onto a list appends its text.
pub broadcast proof fn lemma_texts_push(v: Seq<String>, s: String)
    ensures
        #[trigger] texts(v.push(s)) == texts(v).push(s@),
{
    assert(texts(v.push(s)) =~= texts(v).push(s@));
}

/// `run_before` is the position of the first `c`.
pub proof fn lemma_run_before(s: Seq<char>, c: char, n: int)
    requires
        0 <= n <= s.len(),
        forall|j: int| 0 <= j < n ==> s[j] != c,
        n < s.len() ==> s[n] == c,
    ensures
        run_before(s, c) == n,
    decreases s.len(),
{
    if s.len() > 0 && s[0] != c {
        let t = s.drop_first();
        assert forall|j: int| 0 <= j < n - 1 implies t[j] != c by {
            assert(t[j] == s[j + 1]);
        }
        lemma_run_before(t, c, n - 1);
    }
}

/// What `run_before` counts holds no `c`, and a `c` ends it unless the text does.
pub proof fn lemma_run_before_is_first(s: Seq<char>, c: char)
    ensures
        run_before(s, c) <= s.len(),
        forall|j: int| 0 <= j < run_before(s, c) ==> s[j] != c,
        run_before(s, c) < s.len() ==> s[run_before(s, c) as int] == c,
    decreases s.len(),
{
    if s.len() > 0 && s[0] != c {
        let t = s.drop_first();
        lemma_run_before_is_first(t, c);
        assert forall|j: int| 0 <= j < run_before(s, c) implies s[j] != c by {
            if j > 0 {
                assert(s[j] == t[j - 1]);
            }
        }
    }
}

/// It makes no difference in which order texts are put together.
pub broadcast proof fn lemma_cat(a: Seq<char>, b: Seq<char>, c: Seq<char>)
    ensures
        #[trigger] (a + b + c) == a + (b + c),
{
    assert(a + b + c =~= a + (b + c));
}

/// Nothing put behind a text leaves it as it is.
pub broadcast proof fn lemma_cat_nothing(a: Seq<char>)
    ensures
        #[trigger] (a + Seq::<char>::empty()) == a,
{
    assert(a + Seq::<char>::empty() =~= a);
}

/// Nothing put before a text leaves it as it is.
pub broadcast proof fn lemma_nothing_cat(a: Seq<char>)
    ensures
        #[trigger] (Seq::<char>::empty() + a) == a,
{
    assert(Seq::<char>::empty() + a =~= a);
}

/// What stands between two parts of a text stands in it.
pub proof fn lemma_contains(s: Seq<char>, before: Seq<char>, part: Seq<char>, behind: Seq<char>)
    requires
        s == before + (part + behind),
    ensures
        contains_text(s, part),
        occurs_at(s, part, before.len() as int),
{
    let i = before.len() as int;
    assert(s.subrange(i, i + part.len()) =~= part);
    assert(occurs_at(s, part, i));
}

/// What stands between separators, or at the ends, is a whole piece.
pub proof fn lemma_stands_whole(
    s: Seq<char>,
    before: Seq<char>,
    part: Seq<char>,
    behind: Seq<char>,
    sep: char,
)
    requires
        s == before + part + behind,
        before.len() == 0 || before.last() == sep,
        behind.len() == 0 || behind[0] == sep,
    ensures
        stands_whole(s, part, sep),
        contains_text(s, part),
{
    let i = before.len() as int;
    assert(s.subrange(i, i + part.len()) =~= part);
    if before.len() > 0 {
        assert(s[i - 1] == before.last());
    }
    if behind.len() > 0 {
        assert(s[i + part.len()] == behind[0]);
    }
    assert(whole_at(s, part, sep, i));
    assert(occurs_at(s, part, i));
}

/// A whole piece of a whole piece is a whole piece.
pub proof fn lemma_stands_whole_within(
    s: Seq<char>,
    before: Seq<char>,
    inner: Seq<char>,
    behind: Seq<char>,
    part: Seq<char>,
    sep: char,
)
    requires
        s == before + inner + behind,
        before.len() == 0 || before.last() == sep,
        behind.len() == 0 || behind[0] == sep,
        stands_whole(inner, part, sep),
    ensures
        stands_whole(s, part, sep),
{
    let i = choose|i: int| whole_at(inner, part, sep, i);
    let k = before.len() + i;
    assert(s.subrange(k, k + part.len()) =~= inner.subrange(i, i + part.len()));
    if i == 0 && before.len() > 0 {
        assert(s[k - 1] == before.last());
    } else if i > 0 {
        assert(s[k - 1] == inner[i - 1]);
    }
    if i + part.len() < inner.len() {
        assert(s[k + part.len()] == inner[i + part.len()]);
    } else if behind.len() > 0 {
        assert(s[k + part.len()] == behind[0]);
    }
    assert(whole_at(s, part, sep, k));
}

/// What is put behind a separator leaves the whole pieces before it.
pub proof fn lemma_pieces_stay(s: Seq<char>, parts: Seq<Seq<char>>, behind: Seq<char>, sep: char)
    requires
        all_stand_whole(s, parts, sep),
        behind.len() > 0,
        behind[0] == sep,
    ensures
        all_stand_whole(s + behind, parts, sep),
{
    assert forall|i: int| 0 <= i < parts.len() implies stands_whole(
        s + behind,
        #[trigger] parts[i],
        sep,
    ) by {
        assert(s + behind =~= Seq::<char>::empty() + s + behind);
        lemma_stands_whole_within(s + behind, seq![], s, behind, parts[i], sep);
    }
}

/// What is written behind a separator is one more whole piece.
pub proof fn lemma_piece_is_added(
    s: Seq<char>,
    parts: Seq<Seq<char>>,
    lead: Seq<char>,
    key: Seq<char>,
    value: Seq<char>,
    sep: char,
)
    requires
        all_stand_whole(s, parts, sep),
        lead == seq![sep] + key,
    ensures
        all_stand_whole(s + lead + value, parts.push(key + value), sep),
{
    let t = s + lead + value;
    assert(t =~= s + (lead + value));
    lemma_pieces_stay(s, parts, lead + value, sep);
    assert(t =~= (s + seq![sep]) + (key + value) + Seq::<char>::empty());
    lemma_stands_whole(t, s + seq![sep], key + value, seq![], sep);
    let more = parts.push(key + value);
    assert forall|i: int| 0 <= i < more.len() implies stands_whole(t, #[trigger] more[i], sep) by {
        if i < parts.len() {
            assert(more[i] == parts[i]);
        }
    }
}

/// Every part of a joined text stands in it, from one separator, or end, to
/// another.
pub proof fn lemma_joined_parts(parts: Seq<Seq<char>>, sep: Seq<char>, i: int)
    requires
        0 <= i < parts.len(),
    ensures
        exists|before: Seq<char>, behind: Seq<char>|
            join(parts, sep) == #[trigger] (before + parts[i] + behind) && (i == 0 ==> before.len()
                == 0) && (i > 0 ==> before == join(parts.take(i), sep) + sep) && (i == parts.len()
                - 1 ==> behind.len() == 0) && (i < parts.len() - 1 ==> behind.len() >= sep.len()
                && behind.take(sep.len() as int) == sep),
    decreases parts.len(),
{
    let n = parts.len() as int;
    let front = parts.drop_last();
    if i == n - 1 {
        if n == 1 {
            assert(join(parts, sep) =~= Seq::<char>::empty() + parts[0] + Seq::<char>::empty());
        } else {
            assert(parts.take(i) =~= front);
            assert(join(parts, sep) =~= (join(front, sep) + sep) + parts[i]
                + Seq::<char>::empty());
        }
    } else {
        lemma_joined_parts(front, sep, i);
        let (before, behind) = choose|before: Seq<char>, behind: Seq<char>|
            join(front, sep) == #[trigger] (before + front[i] + behind) && (i == 0 ==> before.len()
                == 0) && (i > 0 ==> before == join(front.take(i), sep) + sep) && (i == front.len()
                - 1 ==> behind.len() == 0) && (i < front.len() - 1 ==> behind.len() >= sep.len()
                && behind.take(sep.len() as int) == sep);
        let more = behind + sep + parts.last();
        assert(front.take(i) =~= parts.take(i));
        assert(join(parts, sep) =~= before + parts[i] + more);
        if i == front.len() - 1 {
            assert(more.take(sep.len() as int) =~= sep);
        } else {
            assert(more.take(sep.len() as int) =~= behind.take(sep.len() as int));
        }
    }
}

/// What stands around a separator is split apart there.
pub proof fn lemma_split_at(a: Seq<char>, b: Seq<char>, sep: char)
    ensures
        split(a + seq![sep] + b, sep) == split(a, sep) + split(b, sep),
    decreases a.len(),
{
    let s = a + seq![sep] + b;
    let n = run_before(a, sep) as int;
    lemma_run_before_is_first(a, sep);
    assert forall|j: int| 0 <= j < n implies s[j] != sep by {
        assert(s[j] == a[j]);
    }
    assert(s[n] == sep) by {
        if n < a.len() {
            assert(s[n] == a[n]);
        }
    }
    lemma_run_before(s, sep, n);
    assert(s.take(n) =~= a.take(n));
    if n < a.len() {
        let rest = a.skip(n + 1);
        lemma_split_at(rest, b, sep);
        assert(s.skip(n + 1) =~= rest + seq![sep] + b);
        assert(split(s, sep) == seq![s.take(n)] + split(s.skip(n + 1), sep));
        assert(split(a, sep) == seq![a.take(n)] + split(rest, sep));
    } else {
        assert(s.skip(n + 1) =~= b);
        assert(a.take(n) =~= a);
        assert(split(s, sep) == seq![s.take(n)] + split(s.skip(n + 1), sep));
    }
    assert(split(s, sep) =~= split(a, sep) + split(b, sep));
}

/// A text without separators is one piece.
pub proof fn lemma_split_one(a: Seq<char>, sep: char)
    requires
        forall|j: int| 0 <= j < a.len() ==> a[j] != sep,
    ensures
        split(a, sep) == seq![a],
{
    lemma_run_before(a, sep, a.len() as int);
    assert(a.take(a.len() as int) =~= a);
}

/// Two words that stand next to each other in a text are neighbours among its
/// words.
pub proof fn lemma_follows(
    s: Seq<char>,
    before: Seq<char>,
    flag: Seq<char>,
    value: Seq<char>,
    behind: Seq<char>,
    sep: char,
)
    requires
        s == before + seq![sep] + (flag + seq![sep] + (value + seq![sep] + behind)),
        forall|j: int| 0 <= j < flag.len() ==> flag[j] != sep,
        forall|j: int| 0 <= j < value.len() ==> value[j] != sep,
    ensures
        follows(split(s, sep), flag, value),
{
    lemma_split_at(before, flag + seq![sep] + (value + seq![sep] + behind), sep);
    lemma_split_at(flag, value + seq![sep] + behind, sep);
    lemma_split_at(value, behind, sep);
    lemma_split_one(flag, sep);
    lemma_split_one(value, sep);
    let i = split(before, sep).len() as int;
    let words = split(s, sep);
    assert(words[i] == flag);
    assert(words[i + 1] == value);
    assert(words.len() >= i + 2);
}

/// What two texts hold before the first separator is the same where the texts
/// are.
pub proof fn lemma_same_before_separator(
    a: Seq<char>,
    x: Seq<char>,
    b: Seq<char>,
    y: Seq<char>,
    sep: char,
)
    requires
        a + seq![sep] + x == b + seq![sep] + y,
        forall|j: int| 0 <= j < a.len() ==> a[j] != sep,
        forall|j: int| 0 <= j < b.len() ==> b[j] != sep,
    ensures
        a == b,
        x == y,
{
    let s = a + seq![sep] + x;
    let t = b + seq![sep] + y;
    assert(s[a.len() as int] == sep);
    assert(t[b.len() as int] == sep);
    assert(a.len() == b.len()) by {
        if a.len() < b.len() {
            assert(t[a.len() as int] == b[a.len() as int]);
        } else if b.len() < a.len() {
            assert(s[b.len() as int] == a[b.len() as int]);
        }
    }
    assert(a =~= b) by {
        assert forall|j: int| 0 <= j < a.len() implies a[j] == b[j] by {
            assert(s[j] == a[j]);
            assert(t[j] == b[j]);
        }
    }
    assert(x.len() == y.len()) by {
        assert(s.len() == a.len() + 1 + x.len());
        assert(t.len() == b.len() + 1 + y.len());
    }
    assert(x =~= y) by {
        assert forall|j: int| 0 <= j < x.len() implies x[j] == y[j] by {
            assert(s[a.len() + 1 + j] == x[j]);
            assert(t[b.len() + 1 + j] == y[j]);
        }
    }
}

/// The characters of a string, in order.
pub fn chars_of(s: &str) -> (out: Vec<char>)
    ensures
        out@ == s@,
{
    let mut out: Vec<char> = Vec::new();
    for c in it: s.chars()
        invariant
            out@ == it.seq().take(it.index()),
            it.seq() == s@,
    {
        out.push(c);
        assert(it.seq().take(it.index() + 1) =~= it.seq().take(it.index()).push(c));
    }
    assert(s@.take(s@.len() as int) =~= s@);
    out
}

/// The string made of the characters from `from` up to `to`.
pub fn string_of(chars: &Vec<char>, from: usize, to: usize) -> (out: String)
    requires
        from <= to <= chars@.len(),
    ensures
        out@ == chars@.subrange(from as int, to as int),
{
    let mut out: String = String::new();
    let mut i: usize = from;
    assert(out@ =~= chars@.subrange(from as int, i as int));
    while i < to
        invariant
            from <= i <= to <= chars@.len(),
            out@ == chars@.subrange(from as int, i as int),
        decreases to - i,
    {
        out.push(chars[i]);
        i = i + 1;
        assert(out@ =~= chars@.subrange(from as int, i as int));
    }
    out
}

/// Whether two strings hold the same text.
pub fn same_text(a: &str, b: &str) -> (r: bool)
    ensures
        r == (a@ == b@),
{
    let x = chars_of(a);
    let y = chars_of(b);
    if x.len() != y.len() {
        return false;
    }
    let mut i: usize = 0;
    while i < x.len()
        invariant
            i <= x@.len(),
            x@.len() == y@.len(),
            x@ == a@,
            y@ == b@,
            forall|j: int| 0 <= j < i ==> x@[j] == y@[j],
        decreases x@.len() - i,
    {
        if x[i] != y[i] {
            assert(a@[i as int] != b@[i as int]);
            return false;
        }
        i = i + 1;
    }
    assert(a@ =~= b@);
    true
}

/// Whether `part` stands in `chars` at `at`.
pub fn stands_at(chars: &Vec<char>, part: &Vec<char>, at: usize) -> (r: bool)
    ensures
        r == occurs_at(chars@, part@, at as int),
{
    if at > chars.len() || part.len() > chars.len() - at {
        return false;
    }
    let mut i: usize = 0;
    while i < part.len()
        invariant
            i <= part@.len(),
            at + part@.len() <= chars.len(),
            forall|j: int| 0 <= j < i ==> chars@[at + j] == part@[j],
        decreases part@.len() - i,
    {
        if chars[at + i] != part[i] {
            assert(chars@.subrange(at as int, at + part@.len())[i as int] == chars@[at + i]);
            return false;
        }
        i = i + 1;
    }
    assert(chars@.subrange(at as int, at + part@.len()) =~= part@);
    true
}

/// The first position at which `part` stands in `chars`.
pub fn find(chars: &Vec<char>, part: &Vec<char>) -> (r: Option<usize>)
    ensures
        match r {
            Some(i) => occurs_at(chars@, part@, i as int) && forall|j: int|
                0 <= j < i ==> !occurs_at(chars@, part@, j),
            None => !contains_text(chars@, part@),
        },
{
    if part.len() > chars.len() {
        return None;
    }
    let last: usize = chars.len() - part.len();
    let mut i: usize = 0;
    while i < last
        invariant
            i <= last,
            last == chars@.len() - part@.len(),
            forall|j: int| 0 <= j < i ==> !occurs_at(chars@, part@, j),
        decreases last - i,
    {
        if stands_at(chars, part, i) {
            return Some(i);
        }
        i = i + 1;
    }
    if stands_at(chars, part, last) {
        Some(last)
    } else {
        None
    }
}

/// Whether `s` holds `part`.
pub fn holds_text(s: &str, part: &str) -> (r: bool)
    ensures
        r == contains_text(s@, part@),
{
    let found = find(&chars_of(s), &chars_of(part));
    match found {
        Some(i) => {
            assert(occurs_at(s@, part@, i as int));
            true
        },
        None => false,
    }
}

/// Whether `s` begins with `prefix`.
pub fn begins_with(s: &str, prefix: &str) -> (r: bool)
    ensures
        r == has_prefix(s@, prefix@),
{
    stands_at(&chars_of(s), &chars_of(prefix), 0)
}

/// Whether a character is white space.
pub fn is_white(c: char) -> (r: bool)
    ensures
        r == is_space(c),
{
    let n: u32 = c as u32;
    (9 <= n && n <= 13) || n == 32 || n == 0x85 || n == 0xA0 || n == 0x1680 || (0x2000 <= n && n
        <= 0x200A) || n == 0x2028 || n == 0x2029 || n == 0x202F || n == 0x205F || n == 0x3000
}

/// How many leading characters of `chars` from `from` on are white space,
/// counted as the position where they end.
fn skip_white(chars: &Vec<char>, from: usize) -> (at: usize)
    requires
        from <= chars@.len(),
    ensures
        from <= at <= chars@.len(),
        forall|j: int| from <= j < at ==> is_space(chars@[j]),
        at < chars@.len() ==> !is_space(chars@[at as int]),
        trim_start(chars@.skip(from as int)) == chars@.skip(at as int),
{
    let mut at: usize = from;
    while at < chars.len() && is_white(chars[at])
        invariant
            from <= at <= chars@.len(),
            forall|j: int| from <= j < at ==> is_space(chars@[j]),
            trim_start(chars@.skip(from as int)) == trim_start(chars@.skip(at as int)),
        decreases chars@.len() - at,
    {
        assert(chars@.skip(at as int).drop_first() =~= chars@.skip(at as int + 1));
        at = at + 1;
    }
    at
}

/// The text without white space at its end.
pub fn trimmed_end(s: &str) -> (out: String)
    ensures
        out@ == trim_end(s@),
{
    let chars = chars_of(s);
    let mut end: usize = chars.len();
    assert(chars@.take(end as int) =~= chars@);
    while end > 0 && is_white(chars[end - 1])
        invariant
            end <= chars@.len(),
            trim_end(chars@) == trim_end(chars@.take(end as int)),
        decreases end,
    {
        assert(chars@.take(end as int).drop_last() =~= chars@.take(end as int - 1));
        end = end - 1;
    }
    let out = string_of(&chars, 0, end);
    assert(chars@.take(end as int) =~= chars@.subrange(0, end as int));
    out
}

/// The text without white space at either end.
pub fn trim(s: &str) -> (out: String)
    ensures
        out@ == trimmed(s@),
{
    let chars = chars_of(s);
    let start = skip_white(&chars, 0);
    assert(chars@.skip(0) =~= chars@);
    let rest = string_of(&chars, start, chars.len());
    assert(chars@.subrange(start as int, chars@.len() as int) =~= chars@.skip(start as int));
    trimmed_end(rest.as_str())
}

/// The position of the first `c` in `chars` from `from` on, or the end.
fn next_char(chars: &Vec<char>, from: usize, c: char) -> (at: usize)
    requires
        from <= chars@.len(),
    ensures
        from <= at <= chars@.len(),
        at == from + run_before(chars@.skip(from as int), c),
        at < chars@.len() ==> chars@[at as int] == c,
{
    let mut at: usize = from;
    while at < chars.len() && chars[at] != c
        invariant
            from <= at <= chars@.len(),
            forall|j: int| from <= j < at ==> chars@[j] != c,
        decreases chars@.len() - at,
    {
        at = at + 1;
    }
    proof {
        let rest = chars@.skip(from as int);
        assert forall|j: int| 0 <= j < at - from implies rest[j] != c by {
            assert(rest[j] == chars@[from + j]);
        }
        lemma_run_before(rest, c, at - from);
    }
    at
}

/// The pieces of `s` between the separators.
pub fn split_on(s: &str, sep: char) -> (out: Vec<String>)
    ensures
        texts(out@) == split(s@, sep),
{
    broadcast use lemma_texts_push;

    let chars = chars_of(s);
    let mut out: Vec<String> = Vec::new();
    let mut from: usize = 0;
    assert(chars@.skip(0) =~= chars@);
    assert(texts(out@) + split(chars@, sep) =~= split(chars@, sep));
    loop
        invariant
            from <= chars@.len(),
            chars@ == s@,
            texts(out@) + split(chars@.skip(from as int), sep) == split(s@, sep),
        decreases chars@.len() - from,
    {
        let ghost rest = chars@.skip(from as int);
        let ghost before = texts(out@);
        let at = next_char(&chars, from, sep);
        out.push(string_of(&chars, from, at));
        assert(chars@.subrange(from as int, at as int) =~= rest.take(at - from));
        if at >= chars.len() {
            assert(rest.take(at - from) =~= rest);
            assert(texts(out@) =~= before + split(rest, sep));
            return out;
        }
        assert(rest.skip(at - from + 1) =~= chars@.skip(at as int + 1));
        assert(before + split(rest, sep) =~= texts(out@) + split(chars@.skip(at as int + 1), sep));
        from = at + 1;
    }
}

/// The words of `s`.
pub fn split_words(s: &str) -> (out: Vec<String>)
    ensures
        texts(out@) == words(s@),
{
    broadcast use lemma_texts_push;

    let chars = chars_of(s);
    let mut out: Vec<String> = Vec::new();
    let mut at: usize = 0;
    assert(chars@.skip(0) =~= chars@);
    assert(texts(out@) + words(chars@) =~= words(chars@));
    while at < chars.len()
        invariant
            at <= chars@.len(),
            chars@ == s@,
            texts(out@) + words(chars@.skip(at as int)) == words(s@),
        decreases chars@.len() - at,
    {
        let ghost rest = chars@.skip(at as int);
        let ghost before = texts(out@);
        if is_white(chars[at]) {
            assert(rest.drop_first() =~= chars@.skip(at as int + 1));
            at = at + 1;
        } else {
            let end = word_end(&chars, at);
            out.push(string_of(&chars, at, end));
            assert(chars@.subrange(at as int, end as int) =~= rest.take(end - at));
            assert(rest.skip(end - at) =~= chars@.skip(end as int));
            assert(before + words(rest) =~= texts(out@) + words(chars@.skip(end as int)));
            at = end;
        }
    }
    assert(chars@.skip(at as int) =~= Seq::<char>::empty());
    assert(texts(out@) + words(chars@.skip(at as int)) =~= texts(out@));
    out
}

/// The position where the word that starts at `from` ends.
fn word_end(chars: &Vec<char>, from: usize) -> (at: usize)
    requires
        from < chars@.len(),
        !is_space(chars@[from as int]),
    ensures
        from < at <= chars@.len(),
        at == from + word_len(chars@.skip(from as int)),
{
    let mut at: usize = from;
    while at < chars.len() && !is_white(chars[at])
        invariant
            from <= at <= chars@.len(),
            from < chars@.len(),
            !is_space(chars@[from as int]),
            word_len(chars@.skip(from as int)) == at - from + word_len(chars@.skip(at as int)),
        decreases chars@.len() - at,
    {
        assert(chars@.skip(at as int).drop_first() =~= chars@.skip(at as int + 1));
        at = at + 1;
    }
    at
}

/// The lines of `s`.
pub fn split_lines(s: &str) -> (out: Vec<String>)
    ensures
        texts(out@) == lines(s@),
{
    broadcast use lemma_texts_push;

    let chars = chars_of(s);
    let mut out: Vec<String> = Vec::new();
    let mut from: usize = 0;
    assert(chars@.skip(0) =~= chars@);
    assert(texts(out@) + lines(chars@) =~= lines(chars@));
    while from < chars.len()
        invariant
            from <= chars@.len(),
            chars@ == s@,
            texts(out@) + lines(chars@.skip(from as int)) == lines(s@),
        decreases chars@.len() - from,
    {
        let ghost rest = chars@.skip(from as int);
        let ghost before = texts(out@);
        let at = next_char(&chars, from, '\n');
        if at >= chars.len() {
            out.push(string_of(&chars, from, at));
            assert(chars@.subrange(from as int, at as int) =~= rest);
            assert(texts(out@) =~= before + lines(rest));
            return out;
        }
        let end: usize = if at > from && chars[at - 1] == '\r' {
            at - 1
        } else {
            at
        };
        out.push(string_of(&chars, from, end));
        assert(chars@.subrange(from as int, end as int) =~= without_cr(rest.take(at - from)));
        assert(rest.skip(at - from + 1) =~= chars@.skip(at as int + 1));
        assert(before + lines(rest) =~= texts(out@) + lines(chars@.skip(at as int + 1)));
        from = at + 1;
    }
    assert(chars@.skip(from as int) =~= Seq::<char>::empty());
    assert(texts(out@) + lines(chars@.skip(from as int)) =~= texts(out@));
    out
}

/// The strings joined into one, with `sep` between neighbours.
pub fn join_all(parts: &Vec<String>, sep: &str) -> (out: String)
    ensures
        out@ == join(texts(parts@), sep@),
{
    let mut out: String = String::new();
    let ghost all = texts(parts@);
    let mut i: usize = 0;
    assert(all.take(0) =~= Seq::<Seq<char>>::empty());
    while i < parts.len()
        invariant
            i <= parts@.len(),
            all == texts(parts@),
            out@ == join(all.take(i as int), sep@),
        decreases parts@.len() - i,
    {
        proof {
            assert(all.take(i as int + 1).drop_last() =~= all.take(i as int));
        }
        if i > 0 {
            out.append(sep);
            out.append(parts[i].as_str());
        } else {
            assert(out@ =~= Seq::<char>::empty());
            out.append(parts[i].as_str());
            assert(out@ =~= all[0]);
        }
        i = i + 1;
    }
    assert(all.take(all.len() as int) =~= all);
    out
}

/// Splitting loses nothing: the pieces joined by the separator are the text.
pub proof fn law_split_join(s: Seq<char>, sep: char)
    ensures
        join(split(s, sep), seq![sep]) == s,
    decreases s.len(),
{
    lemma_run_before_is_first(s, sep);
    let n = run_before(s, sep) as int;
    if n < s.len() {
        let rest = s.skip(n + 1);
        law_split_join(rest, sep);
        lemma_join_cons(s.take(n), split(rest, sep), seq![sep]);
        assert(s =~= s.take(n) + seq![sep] + rest);
    }
}

/// Joining a list with one more part in front.
proof fn lemma_join_cons(first: Seq<char>, parts: Seq<Seq<char>>, sep: Seq<char>)
    requires
        parts.len() > 0,
    ensures
        join(seq![first] + parts, sep) == first + sep + join(parts, sep),
    decreases parts.len(),
{
    let all = seq![first] + parts;
    assert(all.drop_last() =~= seq![first] + parts.drop_last());
    assert(all.last() == parts.last());
    if parts.len() == 1 {
        assert(parts.drop_last() =~= Seq::<Seq<char>>::empty());
        assert(all.drop_last() =~= seq![first]);
        assert(join(seq![first], sep) == first);
    } else {
        lemma_join_cons(first, parts.drop_last(), sep);
        assert(join(all, sep) =~= first + sep + join(parts, sep));
    }
}

/// Where `part` first stands in `s`.
#[verifier::opaque]
pub open spec fn first_at(s: Seq<char>, part: Seq<char>) -> Option<int> {
    if contains_text(s, part) {
        Some(
            choose|i: int|
                occurs_at(s, part, i) && forall|j: int| 0 <= j < i ==> !occurs_at(s, part, j),
        )
    } else {
        None
    }
}

/// Where `part` first stands in `s`.
pub fn find_first(chars: &Vec<char>, part: &str) -> (r: Option<usize>)
    ensures
        match r {
            Some(i) => first_at(chars@, part@) == Some(i as int) && i + part@.len() <= chars.len(),
            None => first_at(chars@, part@) is None,
        },
{
    let found = find(chars, &chars_of(part));
    proof {
        reveal(first_at);
        if let Some(i) = found {
            assert(occurs_at(chars@, part@, i as int));
            let k = first_at(chars@, part@)->Some_0;
            assert(occurs_at(chars@, part@, k) && forall|j: int|
                0 <= j < k ==> !occurs_at(chars@, part@, j));
            assert(k == i);
        }
    }
    found
}

/// The text behind the last `c`, all of it where there is none.
pub open spec fn behind_last(s: Seq<char>, c: char) -> Seq<char>
    decreases s.len(),
{
    if s.len() == 0 || s.last() == c {
        seq![]
    } else {
        behind_last(s.drop_last(), c).push(s.last())
    }
}

proof fn lemma_behind_last(s: Seq<char>, c: char, n: int)
    requires
        0 <= n <= s.len(),
        n > 0 ==> s[n - 1] == c,
        forall|j: int| n <= j < s.len() ==> s[j] != c,
    ensures
        behind_last(s, c) == s.skip(n),
    decreases s.len(),
{
    if s.len() > n {
        lemma_behind_last(s.drop_last(), c, n);
        assert(s.drop_last().skip(n).push(s.last()) =~= s.skip(n));
    } else {
        assert(s.skip(n) =~= seq![]);
    }
}

/// The last part of a path.
pub fn last_segment(s: &str) -> (out: String)
    ensures
        out@ == behind_last(s@, '/'),
{
    let chars = chars_of(s);
    let mut at: usize = chars.len();
    while at > 0 && chars[at - 1] != '/'
        invariant
            at <= chars@.len(),
            forall|j: int| at <= j < chars@.len() ==> chars@[j] != '/',
        decreases at,
    {
        at = at - 1;
    }
    proof {
        lemma_behind_last(chars@, '/', at as int);
        assert(chars@.subrange(at as int, chars@.len() as int) =~= chars@.skip(at as int));
    }
    string_of(&chars, at, chars.len())
}

/// Whether `a` comes before `b` in the order of their characters.
pub open spec fn text_less(a: Seq<char>, b: Seq<char>) -> bool
    decreases a.len(),
{
    if b.len() == 0 {
        false
    } else if a.len() == 0 {
        true
    } else if a[0] != b[0] {
        (a[0] as u32) < (b[0] as u32)
    } else {
        text_less(a.drop_first(), b.drop_first())
    }
}

/// Whether `a` comes before `b` in the order of their characters.
pub fn is_before(a: &str, b: &str) -> (r: bool)
    ensures
        r == text_less(a@, b@),
{
    let x = chars_of(a);
    let y = chars_of(b);
    let mut i: usize = 0;
    assert(x@.skip(0) =~= x@ && y@.skip(0) =~= y@);
    while i < x.len() && i < y.len()
        invariant
            x@ == a@,
            y@ == b@,
            i <= x@.len(),
            i <= y@.len(),
            text_less(a@, b@) == text_less(x@.skip(i as int), y@.skip(i as int)),
        decreases x@.len() - i,
    {
        assert(x@.skip(i as int).drop_first() =~= x@.skip(i + 1));
        assert(y@.skip(i as int).drop_first() =~= y@.skip(i + 1));
        if x[i] != y[i] {
            return (x[i] as u32) < (y[i] as u32);
        }
        i += 1;
    }
    i < y.len()
}

proof fn lemma_chars_have_numbers(a: char, b: char)
    requires
        a != b,
    ensures
        a as u32 != b as u32,
{
}

/// Of two texts that differ, exactly one comes first.
pub proof fn lemma_text_less_is_total(a: Seq<char>, b: Seq<char>)
    ensures
        a != b ==> text_less(a, b) != text_less(b, a),
        a == b ==> !text_less(a, b),
    decreases a.len(),
{
    if a.len() > 0 && b.len() > 0 {
        if a[0] != b[0] {
            lemma_chars_have_numbers(a[0], b[0]);
            assert(text_less(a, b) == ((a[0] as u32) < (b[0] as u32)));
            assert(text_less(b, a) == ((b[0] as u32) < (a[0] as u32)));
        } else {
            assert(text_less(a, b) == text_less(a.drop_first(), b.drop_first()));
            assert(text_less(b, a) == text_less(b.drop_first(), a.drop_first()));
            lemma_text_less_is_total(a.drop_first(), b.drop_first());
            if a != b && a.drop_first() == b.drop_first() {
                assert(a =~= seq![a[0]] + a.drop_first());
                assert(b =~= seq![b[0]] + b.drop_first());
            }
        }
    } else if a.len() == 0 && b.len() == 0 {
        assert(a =~= b);
    }
}

/// A text that comes before one that comes before a third comes before it too.
pub proof fn lemma_text_less_is_transitive(a: Seq<char>, b: Seq<char>, c: Seq<char>)
    requires
        text_less(a, b),
        text_less(b, c),
    ensures
        text_less(a, c),
    decreases a.len(),
{
    if a.len() > 0 && a[0] == b[0] && b[0] == c[0] {
        lemma_text_less_is_transitive(a.drop_first(), b.drop_first(), c.drop_first());
    }
}

/// A character with a capital ASCII letter made small.
pub open spec fn lower_char(c: char) -> char {
    if 65 <= c as u32 <= 90 {
        (c as u32 + 32) as char
    } else {
        c
    }
}

/// The text with its capital ASCII letters made small.
pub open spec fn lowered(s: Seq<char>) -> Seq<char> {
    s.map_values(|c: char| lower_char(c))
}

/// The text with its capital ASCII letters made small.
pub fn to_lower(s: &str) -> (out: String)
    ensures
        out@ == lowered(s@),
{
    let chars = chars_of(s);
    let mut out = String::new();
    let mut i: usize = 0;
    while i < chars.len()
        invariant
            chars@ == s@,
            i <= chars@.len(),
            out@.len() == i,
            forall|j: int| 0 <= j < i ==> out@[j] == lower_char(s@[j]),
        decreases chars@.len() - i,
    {
        let c = chars[i];
        let n: u32 = c as u32;
        if 65 <= n && n <= 90 {
            out.push((n as u8 + 32) as char);
        } else {
            out.push(c);
        }
        i += 1;
    }
    assert(out@ =~= lowered(s@));
    out
}

/// The text that std's `Debug` writes for a list of strings.
pub open spec fn debug_list(parts: Seq<Seq<char>>) -> Seq<char> {
    "["@ + join(parts.map_values(|p: Seq<char>| debug_text(p)), ", "@) + "]"@
}

/// The text that std's `Debug` writes for a list of strings.
pub fn quoted_list(parts: &Vec<String>) -> (out: String)
    ensures
        out@ == debug_list(texts(parts@)),
{
    let mut shown: Vec<String> = Vec::new();
    let mut i: usize = 0;
    while i < parts.len()
        invariant
            i <= parts@.len(),
            shown@.len() == i,
            forall|j: int| 0 <= j < i ==> (#[trigger] shown@[j])@ == debug_text(parts@[j]@),
        decreases parts@.len() - i,
    {
        shown.push(quoted(parts[i].as_str()));
        i += 1;
    }
    assert(texts(shown@) =~= texts(parts@).map_values(|p: Seq<char>| debug_text(p)));
    let mut out = "[".to_string();
    out.append(join_all(&shown, ", ").as_str());
    out.append("]");
    out
}

proof fn lemma_trim_start(s: Seq<char>) -> (i: int)
    ensures
        0 <= i <= s.len(),
        trim_start(s) == s.skip(i),
        forall|k: int| 0 <= k < i ==> is_space(#[trigger] s[k]),
        i < s.len() ==> !is_space(s[i]),
    decreases s.len(),
{
    if s.len() > 0 && is_space(s[0]) {
        let t = s.drop_first();
        let i = lemma_trim_start(t);
        assert(t.skip(i) =~= s.skip(i + 1));
        assert forall|k: int| 0 <= k < i + 1 implies is_space(#[trigger] s[k]) by {
            if k > 0 {
                assert(t[k - 1] == s[k]);
            }
        }
        if i < t.len() {
            assert(t[i] == s[i + 1]);
        }
        i + 1
    } else {
        assert(s.skip(0) =~= s);
        0
    }
}

proof fn lemma_trim_end(s: Seq<char>) -> (j: int)
    ensures
        0 <= j <= s.len(),
        trim_end(s) == s.take(j),
        forall|k: int| j <= k < s.len() ==> is_space(#[trigger] s[k]),
        j > 0 ==> !is_space(s[j - 1]),
    decreases s.len(),
{
    if s.len() > 0 && is_space(s.last()) {
        let t = s.drop_last();
        let j = lemma_trim_end(t);
        assert(t.take(j) =~= s.take(j));
        assert forall|k: int| j <= k < s.len() implies is_space(#[trigger] s[k]) by {
            if k < t.len() {
                assert(t[k] == s[k]);
            }
        }
        if j > 0 {
            assert(t[j - 1] == s[j - 1]);
        }
        j
    } else {
        assert(s.take(s.len() as int) =~= s);
        s.len() as int
    }
}

/// What is trimmed away is white space at either end, and none is left there.
pub proof fn law_trimming_takes_white_space_at_the_ends(s: Seq<char>)
    ensures
        exists|i: int, j: int|
            0 <= i <= j <= s.len() && trimmed(s) == #[trigger] s.subrange(i, j) && (forall|k: int|
                0 <= k < i || j <= k < s.len() ==> is_space(#[trigger] s[k])) && (i < j
                ==> !is_space(s[i]) && !is_space(s[j - 1])),
{
    let i = lemma_trim_start(s);
    let t = s.skip(i);
    let n = lemma_trim_end(t);
    let j = i + n;
    assert(t.take(n) =~= s.subrange(i, j));
    assert forall|k: int| 0 <= k < i || j <= k < s.len() implies is_space(#[trigger] s[k]) by {
        if k >= j {
            assert(t[k - i] == s[k]);
        }
    }
    if n > 0 {
        assert(t[n - 1] == s[j - 1]);
        assert(t[0] == s[i]);
    }
}

/// No piece of a split text holds the separator, and there is always one.
pub proof fn law_pieces_hold_no_separator(s: Seq<char>, sep: char, i: int, j: int)
    requires
        0 <= i < split(s, sep).len(),
        0 <= j < split(s, sep)[i].len(),
    ensures
        split(s, sep)[i][j] != sep,
    decreases s.len(),
{
    let n = run_before(s, sep) as int;
    lemma_run_before_is_first(s, sep);
    if n < s.len() {
        let rest = s.skip(n + 1);
        let all = seq![s.take(n)] + split(rest, sep);
        assert(split(s, sep) == all);
        if i == 0 {
            assert(all[0] == s.take(n));
            assert(s.take(n)[j] == s[j]);
        } else {
            assert(all[i] == split(rest, sep)[i - 1]);
            law_pieces_hold_no_separator(rest, sep, i - 1, j);
        }
    }
}

proof fn lemma_word_len(s: Seq<char>, n: int)
    requires
        0 <= n <= s.len(),
        forall|j: int| 0 <= j < n ==> !is_space(#[trigger] s[j]),
        n < s.len() ==> is_space(s[n]),
    ensures
        word_len(s) == n,
    decreases s.len(),
{
    if s.len() > 0 && !is_space(s[0]) {
        let t = s.drop_first();
        assert forall|j: int| 0 <= j < n - 1 implies !is_space(#[trigger] t[j]) by {
            assert(t[j] == s[j + 1]);
        }
        if n < s.len() {
            assert(t[n - 1] == s[n]);
        }
        lemma_word_len(t, n - 1);
    }
}

proof fn lemma_word_len_is_first(s: Seq<char>)
    ensures
        word_len(s) <= s.len(),
        forall|j: int| 0 <= j < word_len(s) ==> !is_space(#[trigger] s[j]),
        word_len(s) < s.len() ==> is_space(s[word_len(s) as int]),
    decreases s.len(),
{
    if s.len() > 0 && !is_space(s[0]) {
        let t = s.drop_first();
        lemma_word_len_is_first(t);
        assert forall|j: int| 0 <= j < word_len(s) implies !is_space(#[trigger] s[j]) by {
            if j > 0 {
                assert(s[j] == t[j - 1]);
            }
        }
    }
}

/// The words around white space are the words before it and then those behind it;
/// and a text without white space is one word.
pub proof fn law_white_space_parts_words(a: Seq<char>, space: char, b: Seq<char>)
    requires
        is_space(space),
    ensures
        words(a + seq![space] + b) == words(a) + words(b),
        a.len() > 0 && (forall|j: int| 0 <= j < a.len() ==> !is_space(#[trigger] a[j])) ==> words(a)
            == seq![a],
    decreases a.len(),
{
    let s = a + seq![space] + b;
    if a.len() == 0 {
        assert(s.drop_first() =~= b);
        assert(words(a) + words(b) =~= words(b));
    } else if is_space(a[0]) {
        law_white_space_parts_words(a.drop_first(), space, b);
        assert(s.drop_first() =~= a.drop_first() + seq![space] + b);
    } else {
        lemma_word_len_is_first(a);
        let n = word_len(a) as int;
        assert forall|j: int| 0 <= j < n implies !is_space(#[trigger] s[j]) by {
            assert(s[j] == a[j]);
        }
        assert(s[n] == if n < a.len() {
            a[n]
        } else {
            space
        });
        lemma_word_len(s, n);
        let rest = a.skip(n);
        law_white_space_parts_words(rest, space, b);
        assert(s.take(n) =~= a.take(n));
        assert(s.skip(n) =~= rest + seq![space] + b);
        assert(words(s) =~= seq![a.take(n)] + (words(rest) + words(b)));
        if forall|j: int| 0 <= j < a.len() ==> !is_space(#[trigger] a[j]) {
            lemma_word_len(a, a.len() as int);
            assert(rest =~= seq![]);
            assert(a.take(n) =~= a);
            assert(words(a) =~= seq![a]);
        }
        assert(words(s) =~= words(a) + words(b));
    }
}

/// A line ends at its newline, with which it loses the carriage return before it;
/// and what follows the last newline is a line where there is anything.
pub proof fn law_newlines_end_lines(line: Seq<char>, rest: Seq<char>)
    requires
        forall|j: int| 0 <= j < line.len() ==> line[j] != '\n',
        line.len() == 0 || line.last() != '\r',
    ensures
        lines(line + seq!['\n'] + rest) == seq![line] + lines(rest),
        lines(line + seq!['\r'] + seq!['\n'] + rest) == seq![line] + lines(rest),
        line.len() > 0 ==> lines(line) == seq![line],
        lines(seq![]) == Seq::<Seq<char>>::empty(),
{
    let n = line.len() as int;
    let a = line + seq!['\n'] + rest;
    lemma_run_before(a, '\n', n);
    assert(a.take(n) =~= line);
    assert(a.skip(n + 1) =~= rest);
    let b = line + seq!['\r'] + seq!['\n'] + rest;
    lemma_run_before(b, '\n', n + 1);
    assert(b.take(n + 1) =~= line + seq!['\r']);
    assert((line + seq!['\r']).drop_last() =~= line);
    assert(b.skip(n + 2) =~= rest);
    if n > 0 {
        lemma_run_before(line, '\n', n);
    }
}

/// Texts are ordered by the first character in which they differ, and where one goes
/// on behind the other, the shorter comes first.
pub proof fn law_texts_are_ordered_by_their_first_difference(
    front: Seq<char>,
    a: Seq<char>,
    b: Seq<char>,
)
    ensures
        text_less(front + a, front + b) == text_less(a, b),
        b.len() > 0 ==> text_less(front, front + b),
        a.len() > 0 && b.len() > 0 && (a[0] as u32) < (b[0] as u32) ==> text_less(
            front + a,
            front + b,
        ) && !text_less(front + b, front + a),
    decreases front.len(),
{
    if front.len() == 0 {
        assert(front + a =~= a);
        assert(front + b =~= b);
        assert(front =~= seq![]);
    } else {
        let rest = front.drop_first();
        law_texts_are_ordered_by_their_first_difference(rest, a, b);
        assert((front + a).drop_first() =~= rest + a);
        assert((front + b).drop_first() =~= rest + b);
        law_texts_are_ordered_by_their_first_difference(rest, b, a);
    }
}

/// The last part of a path holds no slash and ends the path, behind a slash where
/// the path goes on before it.
pub proof fn law_the_last_part_follows_the_last_slash(front: Seq<char>, last: Seq<char>, c: char)
    requires
        forall|j: int| 0 <= j < last.len() ==> last[j] != c,
    ensures
        behind_last(front + seq![c] + last, c) == last,
        behind_last(last, c) == last,
{
    let s = front + seq![c] + last;
    let n = front.len() as int + 1;
    assert(s[n - 1] == c);
    assert forall|j: int| n <= j < s.len() implies s[j] != c by {
        assert(s[j] == last[j - n]);
    }
    lemma_behind_last(s, c, n);
    assert(s.skip(n) =~= last);
    lemma_behind_last(last, c, 0);
    assert(last.skip(0) =~= last);
}

/// Making a text small changes its capital ASCII letters and nothing else.
pub proof fn law_small_letters(s: Seq<char>, i: int)
    requires
        0 <= i < s.len(),
    ensures
        lowered(s).len() == s.len(),
        65 <= s[i] as u32 <= 90 ==> lowered(s)[i] as u32 == s[i] as u32 + 32,
        !(65 <= s[i] as u32 <= 90) ==> lowered(s)[i] == s[i],
{
}

proof fn lemma_least_place(s: Seq<char>, part: Seq<char>, k: int) -> (i: int)
    requires
        occurs_at(s, part, k),
    ensures
        occurs_at(s, part, i),
        forall|j: int| 0 <= j < i ==> !occurs_at(s, part, j),
    decreases k,
{
    if exists|j: int| 0 <= j < k && occurs_at(s, part, j) {
        let j = choose|j: int| 0 <= j < k && occurs_at(s, part, j);
        lemma_least_place(s, part, j)
    } else {
        k
    }
}

/// A part is found at a place where it stands, and stands nowhere before that; it is not
/// found only where it does not stand in the text at all.
pub proof fn law_the_first_place_is_the_first(s: Seq<char>, part: Seq<char>)
    ensures
        first_at(s, part) is None <==> !contains_text(s, part),
        first_at(s, part) matches Some(i) ==> occurs_at(s, part, i) && forall|j: int|
            0 <= j < i ==> !occurs_at(s, part, j),
{
    reveal(first_at);
    if contains_text(s, part) {
        let k = choose|k: int| occurs_at(s, part, k);
        let i = lemma_least_place(s, part, k);
        assert(occurs_at(s, part, i) && forall|j: int| 0 <= j < i ==> !occurs_at(s, part, j));
    }
}

} // verus!
