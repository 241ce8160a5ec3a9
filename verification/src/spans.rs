//! Where things stand in a contract's YAML text: a line (from 1) and a
//! column (the byte offset in the line, from 1), found by searching the
//! text's lines for a token.
use crate::analyze::{is_white_space, is_white_space_char, trim_start};
use crate::text::{find_chars, first_occurrence, has_prefix, occurs_at, text_chars};
use vstd::prelude::*;

verus! {

/// A stretch of one line: where it starts and where its last byte is.
#[derive(Debug, Clone, Copy, PartialEq, Eq)]
pub struct SourceSpan {
    pub line: usize,
    pub column: usize,
    pub end_line: usize,
    pub end_column: usize,
}

pub struct SpanV {
    pub line: nat,
    pub column: nat,
    pub end_line: nat,
    pub end_column: nat,
}

impl View for SourceSpan {
    type V = SpanV;

    open spec fn view(&self) -> SpanV {
        SpanV {
            line: self.line as nat,
            column: self.column as nat,
            end_line: self.end_line as nat,
            end_column: self.end_column as nat,
        }
    }
}

pub open spec fn span_option_view(s: Option<SourceSpan>) -> Option<SpanV> {
    match s {
        Some(x) => Some(x@),
        None => None,
    }
}

/// The number of bytes UTF-8 takes for a character.
pub open spec fn char_width(c: char) -> nat {
    if (c as u32) < 0x80 {
        1
    } else if (c as u32) < 0x800 {
        2
    } else if (c as u32) < 0x10000 {
        3
    } else {
        4
    }
}

/// The number of bytes UTF-8 takes for a text.
pub open spec fn byte_len(s: Seq<char>) -> nat
    decreases s.len(),
{
    if s.len() == 0 {
        0
    } else {
        byte_len(s.drop_last()) + char_width(s.last())
    }
}

proof fn lemma_byte_len_bound(s: Seq<char>)
    ensures
        byte_len(s) <= 4 * s.len(),
        s.len() <= byte_len(s),
    decreases s.len(),
{
    if s.len() > 0 {
        lemma_byte_len_bound(s.drop_last());
    }
}

proof fn lemma_byte_len_append(a: Seq<char>, b: Seq<char>)
    ensures
        byte_len(a + b) == byte_len(a) + byte_len(b),
    decreases b.len(),
{
    if b.len() > 0 {
        assert((a + b).drop_last() =~= a + b.drop_last());
        lemma_byte_len_append(a, b.drop_last());
    } else {
        assert(a + b =~= a);
    }
}

/// The lines read so far, and the line being read.
pub open spec fn line_split(s: Seq<char>) -> (Seq<Seq<char>>, Seq<char>)
    decreases s.len(),
{
    if s.len() == 0 {
        (Seq::empty(), Seq::empty())
    } else {
        let (done, current) = line_split(s.drop_last());
        if s.last() == '\n' {
            (done.push(strip_cr(current)), Seq::empty())
        } else {
            (done, current.push(s.last()))
        }
    }
}

/// A line without the carriage return that ended it.
pub open spec fn strip_cr(line: Seq<char>) -> Seq<char> {
    if line.len() > 0 && line.last() == '\r' {
        line.drop_last()
    } else {
        line
    }
}

/// `str::lines`: the text cut at each line feed, a carriage return before
/// the line feed dropped, and no empty line after a final line feed.
pub open spec fn lines_of(s: Seq<char>) -> Seq<Seq<char>> {
    let (done, current) = line_split(s);
    if current.len() == 0 {
        done
    } else {
        done.push(current)
    }
}

proof fn lemma_line_split_bound(s: Seq<char>)
    ensures
        line_split(s).0.len() + line_split(s).1.len() <= s.len(),
        forall|i: int| 0 <= i < line_split(s).0.len() ==> (#[trigger] line_split(s).0[i]).len() <= s.len(),
    decreases s.len(),
{
    if s.len() > 0 {
        lemma_line_split_bound(s.drop_last());
    }
}

/// No line is longer than the text, nor are there more lines than characters.
pub proof fn lemma_lines_bound(s: Seq<char>)
    ensures
        lines_of(s).len() <= s.len(),
        forall|i: int| 0 <= i < lines_of(s).len() ==> (#[trigger] lines_of(s)[i]).len() <= s.len(),
{
    lemma_line_split_bound(s);
}

pub open spec fn lines_view(v: Seq<Vec<char>>) -> Seq<Seq<char>> {
    v.map_values(|l: Vec<char>| l@)
}

/// The lines of a text, as characters.
pub fn source_lines(source: &str) -> (r: Vec<Vec<char>>)
    ensures
        lines_view(r@) == lines_of(source@),
{
    let chars = text_chars(source);
    let mut done: Vec<Vec<char>> = Vec::new();
    let mut current: Vec<char> = Vec::new();
    let mut i: usize = 0;
    assert(chars@.subrange(0, 0) =~= Seq::<char>::empty());
    assert(lines_view(done@) =~= Seq::<Seq<char>>::empty());
    while i < chars.len()
        invariant
            chars@ == source@,
            i <= chars@.len(),
            line_split(chars@.subrange(0, i as int)) == (lines_view(done@), current@),
        decreases chars@.len() - i,
    {
        let c = chars[i];
        assert(chars@.subrange(0, i + 1).drop_last() =~= chars@.subrange(0, i as int));
        if c == '\n' {
            let n = current.len();
            if n > 0 && current[n - 1] == '\r' {
                current.pop();
            }
            let ghost before = done@;
            done.push(current);
            assert(lines_view(done@) =~= lines_view(before).push(done@.last()@));
            current = Vec::new();
            assert(current@ =~= Seq::<char>::empty());
        } else {
            current.push(c);
        }
        i = i + 1;
    }
    assert(chars@.subrange(0, i as int) =~= source@);
    if current.len() > 0 {
        let ghost before = done@;
        done.push(current);
        assert(lines_view(done@) =~= lines_view(before).push(done@.last()@));
    }
    done
}

pub fn char_bytes(c: char) -> (r: usize)
    ensures
        r == char_width(c),
{
    let x = c as u32;
    if x < 0x80 {
        1
    } else if x < 0x800 {
        2
    } else if x < 0x10000 {
        3
    } else {
        4
    }
}

/// The number of bytes of the first `k` characters.
pub fn prefix_bytes(text: &Vec<char>, k: usize) -> (r: usize)
    requires
        k <= text@.len(),
        4 * text@.len() <= usize::MAX,
    ensures
        r == byte_len(text@.take(k as int)),
{
    let mut sum: usize = 0;
    let mut j: usize = 0;
    assert(text@.take(0) =~= Seq::<char>::empty());
    while j < k
        invariant
            k <= text@.len(),
            4 * text@.len() <= usize::MAX,
            j <= k,
            sum == byte_len(text@.take(j as int)),
            sum <= 4 * j,
        decreases k - j,
    {
        assert(text@.take(j + 1).drop_last() =~= text@.take(j as int));
        sum = sum + char_bytes(text[j]);
        j = j + 1;
    }
    sum
}

/// The length of `text` in bytes when written as UTF-8; every character takes
/// at most four, so the length fits when four times the character count does.
pub fn text_bytes(text: &Vec<char>) -> (r: usize)
    requires
        4 * text@.len() <= usize::MAX,
    ensures
        r == byte_len(text@),
{
    let r = prefix_bytes(text, text.len());
    assert(text@.take(text@.len() as int) =~= text@);
    r
}

/// The span of the first occurrence of `token`, searching line by line from
/// line `i` (counted from 0).
pub open spec fn token_span_from(lines: Seq<Seq<char>>, token: Seq<char>, i: nat) -> Option<SpanV>
    decreases lines.len() - i,
{
    if i >= lines.len() {
        None
    } else {
        match first_occurrence(lines[i as int], token) {
            Some(k) => Some(
                SpanV {
                    line: i + 1,
                    column: byte_len(lines[i as int].take(k as int)) + 1,
                    end_line: i + 1,
                    end_column: byte_len(lines[i as int].take(k as int)) + byte_len(token),
                },
            ),
            None => token_span_from(lines, token, i + 1),
        }
    }
}

/// Whether the text is short enough for its byte offsets to fit a machine
/// word with room to spare.
pub open spec fn measurable(s: Seq<char>) -> bool {
    8 * s.len() <= usize::MAX
}

/// Where `token` first occurs, line by line (nothing is located in a text
/// too long for its byte offsets to be counted).
pub open spec fn token_span(source: Seq<char>, token: Seq<char>) -> Option<SpanV> {
    if measurable(source) {
        token_span_from(lines_of(source), token, 0)
    } else {
        None
    }
}

/// The span of the first occurrence of `token` in line `i` (from 0).
pub open spec fn span_in_line(line: Seq<char>, token: Seq<char>, i: nat) -> Option<SpanV> {
    match first_occurrence(line, token) {
        Some(k) => Some(
            SpanV {
                line: i + 1,
                column: byte_len(line.take(k as int)) + 1,
                end_line: i + 1,
                end_column: byte_len(line.take(k as int)) + byte_len(token),
            },
        ),
        None => None,
    }
}

fn line_token_span(line: &Vec<char>, needle: &Vec<char>, i: usize) -> (r: Option<SourceSpan>)
    requires
        measurable(line@),
        i < usize::MAX,
    ensures
        span_option_view(r) == span_in_line(line@, needle@, i as nat),
{
    let found = find_chars(line, needle);
    match found {
        Some(k) => {
            let ghost prefix = line@.take(k as int);
            assert(k + needle@.len() <= line@.len());
            assert(prefix.len() == k);
            proof {
                lemma_byte_len_bound(prefix);
                lemma_byte_len_bound(needle@);
            }
            let column = prefix_bytes(line, k);
            let token_bytes = text_bytes(needle);
            let r = SourceSpan { line: i + 1, column: column + 1, end_line: i + 1, end_column: column + token_bytes };
            assert(span_in_line(line@, needle@, i as nat) == Some(r@));
            Some(r)
        },
        None => None,
    }
}

/// The lines of a text that is short enough to be searched.
fn searchable_lines(source: &str) -> (r: Option<Vec<Vec<char>>>)
    ensures
        match r {
            Some(lines) => measurable(source@) && lines_view(lines@) == lines_of(source@) && lines@.len() <= source@.len()
                && forall|j: int| 0 <= j < lines@.len() ==> measurable((#[trigger] lines@[j])@),
            None => !measurable(source@),
        },
{
    let n = source.unicode_len();
    if n > usize::MAX / 8 {
        return None;
    }
    let lines = source_lines(source);
    proof {
        lemma_lines_bound(source@);
        assert forall|j: int| 0 <= j < lines@.len() implies measurable((#[trigger] lines@[j])@) by {
            assert(lines_view(lines@)[j] == lines@[j]@);
        }
    }
    Some(lines)
}

pub fn find_token_span(source: &str, token: &str) -> (r: Option<SourceSpan>)
    ensures
        span_option_view(r) == token_span(source@, token@),
{
    let lines = match searchable_lines(source) {
        Some(lines) => lines,
        None => return None,
    };
    let needle = text_chars(token);
    let ghost lv = lines_view(lines@);
    let mut i: usize = 0;
    while i < lines.len()
        invariant
            lv == lines_view(lines@),
            lv == lines_of(source@),
            needle@ == token@,
            measurable(source@),
            lines@.len() <= source@.len(),
            forall|j: int| 0 <= j < lines@.len() ==> measurable((#[trigger] lines@[j])@),
            i <= lines@.len(),
            token_span(source@, token@) == token_span_from(lv, token@, i as nat),
        decreases lines@.len() - i,
    {
        assert(lv[i as int] == lines@[i as int]@);
        let found = line_token_span(&lines[i], &needle, i);
        if found.is_some() {
            return found;
        }
        i = i + 1;
    }
    None
}

/// `str::split` on one character: the pieces between separators, empty
/// pieces included.
pub open spec fn split_on(s: Seq<char>, sep: char) -> Seq<Seq<char>>
    decreases s.len(),
{
    if s.len() == 0 {
        seq![Seq::empty()]
    } else {
        let parts = split_on(s.drop_last(), sep);
        if s.last() == sep {
            parts.push(Seq::empty())
        } else {
            parts.update(parts.len() - 1, parts.last().push(s.last()))
        }
    }
}

proof fn lemma_split_on_len(s: Seq<char>, sep: char)
    ensures
        split_on(s, sep).len() >= 1,
    decreases s.len(),
{
    if s.len() > 0 {
        lemma_split_on_len(s.drop_last(), sep);
    }
}

/// The text before the first `c` (all of it when there is none).
pub open spec fn before_char(s: Seq<char>, c: char) -> Seq<char>
    decreases s.len(),
{
    if s.len() == 0 {
        s
    } else if s[0] == c {
        Seq::empty()
    } else {
        seq![s[0]] + before_char(s.drop_first(), c)
    }
}

proof fn lemma_before_char_push(s: Seq<char>, c: char, x: char)
    ensures
        before_char(s, c).len() <= s.len(),
        before_char(s, c).len() < s.len() ==> before_char(s.push(x), c) == before_char(s, c),
        before_char(s, c).len() == s.len() ==> before_char(s, c) == s,
        before_char(s, c).len() == s.len() && x == c ==> before_char(s.push(x), c) == s,
        before_char(s, c).len() == s.len() && x != c ==> before_char(s.push(x), c) == s.push(x),
    decreases s.len(),
{
    if s.len() == 0 {
        assert(s.push(x).drop_first() =~= Seq::<char>::empty());
        assert(before_char(s.push(x).drop_first(), c) =~= Seq::<char>::empty());
        assert(seq![x] + Seq::<char>::empty() =~= s.push(x));
    } else {
        assert(s.push(x).drop_first() =~= s.drop_first().push(x));
        lemma_before_char_push(s.drop_first(), c, x);
        if s[0] != c {
            assert(seq![s[0]] + s.drop_first() =~= s);
            assert(seq![s[0]] + s.drop_first().push(x) =~= s.push(x));
        }
    }
}

/// The keys a path names, without the leading `$.` and without indexes.
pub open spec fn nonempty_keys(segments: Seq<Seq<char>>) -> Seq<Seq<char>>
    decreases segments.len(),
{
    if segments.len() == 0 {
        Seq::empty()
    } else {
        let keys = nonempty_keys(segments.drop_last());
        let key = before_char(segments.last(), '[');
        if key.len() == 0 {
            keys
        } else {
            keys.push(key)
        }
    }
}

pub open spec fn strip_root(path: Seq<char>) -> Seq<char> {
    if has_prefix(path, "$."@) {
        path.skip(2)
    } else {
        path
    }
}

pub open spec fn path_keys_spec(path: Seq<char>) -> Seq<Seq<char>> {
    nonempty_keys(split_on(strip_root(path), '.'))
}

pub open spec fn texts_view(v: Seq<Vec<char>>) -> Seq<Seq<char>> {
    v.map_values(|t: Vec<char>| t@)
}

/// The keys a path names: `$.When.cases[0].then` names `When`, `cases`, `then`.
pub fn path_keys(path: &str) -> (r: Vec<Vec<char>>)
    ensures
        texts_view(r@) == path_keys_spec(path@),
        forall|i: int| 0 <= i < r@.len() ==> (#[trigger] r@[i])@.len() <= path@.len(),
{
    let chars = text_chars(path);
    let n = chars.len();
    let root = n >= 2 && chars[0] == '$' && chars[1] == '.';
    proof {
        reveal_strlit("$.");
        if root {
            assert(path@.subrange(0, 2) =~= "$."@);
        } else if n >= 2 {
            assert(path@.subrange(0, 2)[0] != '$' || path@.subrange(0, 2)[1] != '.');
        }
    }
    let start: usize = if root { 2 } else { 0 };
    let ghost t = strip_root(path@);
    assert(t =~= chars@.subrange(start as int, n as int));
    let mut keys: Vec<Vec<char>> = Vec::new();
    let mut key: Vec<char> = Vec::new();
    let mut cut = false;
    let mut k: usize = start;
    assert(t.subrange(0, 0) =~= Seq::<char>::empty());
    assert(split_on(Seq::<char>::empty(), '.') =~= seq![Seq::<char>::empty()]);
    assert(texts_view(keys@) =~= Seq::<Seq<char>>::empty());
    assert(nonempty_keys(seq![Seq::<char>::empty()].drop_last()) =~= Seq::<Seq<char>>::empty());
    while k < n
        invariant
            chars@ == path@,
            n == chars@.len(),
            start <= k <= n,
            t == chars@.subrange(start as int, n as int),
            texts_view(keys@) == nonempty_keys(split_on(t.subrange(0, k - start), '.').drop_last()),
            key@ == before_char(split_on(t.subrange(0, k - start), '.').last(), '['),
            cut == (key@.len() < split_on(t.subrange(0, k - start), '.').last().len()),
            forall|i: int| 0 <= i < keys@.len() ==> (#[trigger] keys@[i])@.len() <= k,
            key@.len() <= k,
        decreases n - k,
    {
        let ghost pre = t.subrange(0, k - start);
        let ghost post = t.subrange(0, k + 1 - start);
        assert(post.drop_last() =~= pre);
        assert(post.last() == chars@[k as int]);
        proof {
            lemma_split_on_len(pre, '.');
            lemma_before_char_push(split_on(pre, '.').last(), '[', chars@[k as int]);
        }
        let c = chars[k];
        if c == '.' {
            let ghost parts = split_on(pre, '.');
            assert(split_on(post, '.') == parts.push(Seq::<char>::empty()));
            assert(split_on(post, '.').drop_last() =~= parts);
            assert(parts =~= parts.drop_last().push(parts.last()));
            assert(nonempty_keys(parts) == (if key@.len() == 0 { nonempty_keys(parts.drop_last()) } else { nonempty_keys(parts.drop_last()).push(key@) }));
            if key.len() > 0 {
                let ghost before = keys@;
                keys.push(key);
                assert(texts_view(keys@) =~= texts_view(before).push(keys@.last()@));
            }
            key = Vec::new();
            cut = false;
            assert(split_on(post, '.').last() =~= Seq::<char>::empty());
            assert(key@ =~= before_char(Seq::<char>::empty(), '['));
        } else {
            let ghost parts = split_on(pre, '.');
            assert(split_on(post, '.') == parts.update(parts.len() - 1, parts.last().push(c)));
            assert(split_on(post, '.').drop_last() =~= parts.drop_last());
            if !cut {
                if c == '[' {
                    cut = true;
                } else {
                    key.push(c);
                }
            }
        }
        k = k + 1;
    }
    assert(t.subrange(0, n - start) =~= t);
    proof {
        lemma_split_on_len(t, '.');
        let parts = split_on(t, '.');
        assert(parts =~= parts.drop_last().push(parts.last()));
    }
    if key.len() > 0 {
        let ghost before = keys@;
        keys.push(key);
        assert(texts_view(keys@) =~= texts_view(before).push(keys@.last()@));
    }
    keys
}

/// `key:`, as a key is written in YAML.
pub open spec fn colon(key: Seq<char>) -> Seq<char> {
    key + ":"@
}

pub open spec fn window_start(idx: int, window: int) -> int {
    if idx >= window {
        idx - window
    } else {
        0
    }
}

/// Whether `tok` occurs in one of the `window` lines before line `idx`, or
/// in line `idx` itself.
pub open spec fn window_has(lines: Seq<Seq<char>>, idx: int, window: int, tok: Seq<char>) -> bool {
    exists|j: int| window_start(idx, window) <= j <= idx && #[trigger] first_occurrence(lines[j], tok) is Some
}

/// How many of the anchor tokens occur near line `idx` (each counted as
/// often as it is listed).
pub open spec fn anchor_score(lines: Seq<Seq<char>>, idx: int, window: int, anchors: Seq<Seq<char>>) -> nat
    decreases anchors.len(),
{
    if anchors.len() == 0 {
        0
    } else {
        anchor_score(lines, idx, window, anchors.drop_last()) + if window_has(lines, idx, window, anchors.last()) {
            1nat
        } else {
            0nat
        }
    }
}

pub open spec fn is_candidate(lines: Seq<Seq<char>>, token: Seq<char>, j: int) -> bool {
    0 <= j < lines.len() && first_occurrence(lines[j], token) is Some
}

/// Line `m` holds `token`, no line holding it scores more, and every such
/// line before `m` scores less.
pub open spec fn first_best(lines: Seq<Seq<char>>, token: Seq<char>, anchors: Seq<Seq<char>>, window: int, m: int) -> bool {
    &&& is_candidate(lines, token, m)
    &&& forall|j: int|
        #![trigger is_candidate(lines, token, j)]
        is_candidate(lines, token, j) ==> anchor_score(lines, j, window, anchors) <= anchor_score(lines, m, window, anchors)
    &&& forall|j: int|
        #![trigger is_candidate(lines, token, j)]
        0 <= j < m && is_candidate(lines, token, j) ==> anchor_score(lines, j, window, anchors) < anchor_score(
            lines,
            m,
            window,
            anchors,
        )
}

/// The first of the lines holding `token` whose anchors score highest.
pub open spec fn best_line(lines: Seq<Seq<char>>, token: Seq<char>, anchors: Seq<Seq<char>>, window: int) -> Option<nat> {
    if exists|m: int| first_best(lines, token, anchors, window, m) {
        Some((choose|m: int| first_best(lines, token, anchors, window, m)) as nat)
    } else {
        None
    }
}

proof fn lemma_first_best_unique(lines: Seq<Seq<char>>, token: Seq<char>, anchors: Seq<Seq<char>>, window: int, a: int, b: int)
    requires
        first_best(lines, token, anchors, window, a),
        first_best(lines, token, anchors, window, b),
    ensures
        a == b,
{
    assert(is_candidate(lines, token, a));
    assert(is_candidate(lines, token, b));
}

fn window_has_exec(lines: &Vec<Vec<char>>, idx: usize, window: usize, tok: &Vec<char>) -> (r: bool)
    requires
        idx < lines@.len(),
        idx < usize::MAX,
    ensures
        r == window_has(lines_view(lines@), idx as int, window as int, tok@),
{
    let ghost lv = lines_view(lines@);
    let lo: usize = if idx >= window { idx - window } else { 0 };
    let mut j: usize = lo;
    while j <= idx
        invariant
            lv == lines_view(lines@),
            idx < lines@.len(),
            idx < usize::MAX,
            lo == window_start(idx as int, window as int),
            lo <= j <= idx + 1,
            forall|q: int| lo <= q < j ==> #[trigger] first_occurrence(lv[q], tok@) is None,
        decreases idx + 1 - j,
    {
        assert(lv[j as int] == lines@[j as int]@);
        if find_chars(&lines[j], tok).is_some() {
            assert(first_occurrence(lv[j as int], tok@) is Some);
            return true;
        }
        j = j + 1;
    }
    proof {
        if window_has(lv, idx as int, window as int, tok@) {
            let q = choose|q: int| window_start(idx as int, window as int) <= q <= idx && #[trigger] first_occurrence(lv[q], tok@) is Some;
            assert(first_occurrence(lv[q], tok@) is None);
        }
    }
    false
}

fn score_exec(lines: &Vec<Vec<char>>, idx: usize, window: usize, anchors: &Vec<Vec<char>>) -> (r: usize)
    requires
        idx < lines@.len(),
        idx < usize::MAX,
    ensures
        r == anchor_score(lines_view(lines@), idx as int, window as int, texts_view(anchors@)),
{
    let ghost lv = lines_view(lines@);
    let ghost av = texts_view(anchors@);
    let mut count: usize = 0;
    let mut a: usize = 0;
    assert(av.subrange(0, 0) =~= Seq::<Seq<char>>::empty());
    while a < anchors.len()
        invariant
            lv == lines_view(lines@),
            av == texts_view(anchors@),
            idx < lines@.len(),
            idx < usize::MAX,
            a <= anchors@.len(),
            count <= a,
            count == anchor_score(lv, idx as int, window as int, av.subrange(0, a as int)),
        decreases anchors@.len() - a,
    {
        assert(av.subrange(0, a + 1).drop_last() =~= av.subrange(0, a as int));
        assert(av.subrange(0, a + 1).last() == anchors@[a as int]@);
        if window_has_exec(lines, idx, window, &anchors[a]) {
            count = count + 1;
        }
        a = a + 1;
    }
    assert(av.subrange(0, a as int) =~= av);
    count
}

/// The line to point at, and where in it `token` starts (in characters).
fn best_line_exec(lines: &Vec<Vec<char>>, token: &Vec<char>, anchors: &Vec<Vec<char>>, window: usize) -> (r: Option<(usize, usize)>)
    requires
        lines@.len() < usize::MAX,
    ensures
        match r {
            Some((m, k)) => m < lines@.len() && best_line(lines_view(lines@), token@, texts_view(anchors@), window as int)
                == Some(m as nat) && first_occurrence(lines@[m as int]@, token@) == Some(k as nat) && occurs_at(
                lines@[m as int]@,
                token@,
                k as int,
            ),
            None => best_line(lines_view(lines@), token@, texts_view(anchors@), window as int) is None,
        },
{
    let ghost lv = lines_view(lines@);
    let ghost av = texts_view(anchors@);
    let ghost w = window as int;
    let mut best: Option<(usize, usize, usize)> = None;
    let mut i: usize = 0;
    while i < lines.len()
        invariant
            lv == lines_view(lines@),
            av == texts_view(anchors@),
            w == window as int,
            lines@.len() < usize::MAX,
            i <= lines@.len(),
            match best {
                None => forall|j: int| 0 <= j < i ==> !#[trigger] is_candidate(lv, token@, j),
                Some((b, k, sc)) => {
                    &&& b < i
                    &&& is_candidate(lv, token@, b as int)
                    &&& first_occurrence(lv[b as int], token@) == Some(k as nat)
                    &&& occurs_at(lv[b as int], token@, k as int)
                    &&& sc == anchor_score(lv, b as int, w, av)
                    &&& forall|j: int| 0 <= j < i && #[trigger] is_candidate(lv, token@, j) ==> anchor_score(lv, j, w, av) <= sc
                    &&& forall|j: int| 0 <= j < b && #[trigger] is_candidate(lv, token@, j) ==> anchor_score(lv, j, w, av) < sc
                },
            },
        decreases lines@.len() - i,
    {
        assert(lv[i as int] == lines@[i as int]@);
        match find_chars(&lines[i], token) {
            Some(k) => {
                let sc = score_exec(lines, i, window, anchors);
                match best {
                    None => {
                        best = Some((i, k, sc));
                    },
                    Some((_, _, best_score)) => {
                        if sc > best_score {
                            best = Some((i, k, sc));
                        }
                    },
                }
            },
            None => {},
        }
        i = i + 1;
    }
    match best {
        None => {
            proof {
                if exists|m: int| first_best(lv, token@, av, w, m) {
                    let m = choose|m: int| first_best(lv, token@, av, w, m);
                    assert(is_candidate(lv, token@, m));
                }
            }
            None
        },
        Some((b, k, _)) => {
            proof {
                assert(first_best(lv, token@, av, w, b as int));
                let m = choose|m: int| first_best(lv, token@, av, w, m);
                lemma_first_best_unique(lv, token@, av, w, m, b as int);
                assert(lv[b as int] == lines@[b as int]@);
            }
            Some((b, k))
        },
    }
}

pub open spec fn anchors_of(keys: Seq<Seq<char>>) -> Seq<Seq<char>> {
    keys.map_values(|k: Seq<char>| colon(k))
}

/// The span of `token` in the chosen line, ending `end_bytes` after it starts.
pub open spec fn chosen_span(lines: Seq<Seq<char>>, m: Option<nat>, token: Seq<char>, end_bytes: nat) -> Option<SpanV> {
    match m {
        None => None,
        Some(m) => match first_occurrence(lines[m as int], token) {
            None => None,
            Some(k) => Some(
                SpanV {
                    line: m + 1,
                    column: byte_len(lines[m as int].take(k as int)) + 1,
                    end_line: m + 1,
                    end_column: byte_len(lines[m as int].take(k as int)) + end_bytes,
                },
            ),
        },
    }
}

/// Where the last key of a path is written: among the lines holding `key:`,
/// the first of those with the most of the path's other keys written within
/// the 40 lines above.
pub open spec fn path_key_span(source: Seq<char>, path: Seq<char>) -> Option<SpanV> {
    let keys = path_keys_spec(path);
    if !measurable(source) || keys.len() == 0 {
        None
    } else {
        let lines = lines_of(source);
        let key = keys.last();
        chosen_span(lines, best_line(lines, colon(key), anchors_of(keys.drop_last()), 40), colon(key), byte_len(key))
    }
}

/// Where a constructor of the contract at `path` is written: among the
/// lines holding `constructor:`, the first of those with the most of the
/// path's keys written within the 60 lines above.
pub open spec fn constructor_span(source: Seq<char>, path: Seq<char>, constructor: Seq<char>) -> Option<SpanV> {
    if !measurable(source) {
        None
    } else {
        let lines = lines_of(source);
        chosen_span(
            lines,
            best_line(lines, colon(constructor), anchors_of(path_keys_spec(path)), 60),
            colon(constructor),
            byte_len(constructor),
        )
    }
}

fn with_colon(key: &Vec<char>) -> (r: Vec<char>)
    ensures
        r@ == colon(key@),
{
    let mut r: Vec<char> = Vec::new();
    let mut i: usize = 0;
    while i < key.len()
        invariant
            i <= key@.len(),
            r@ == key@.subrange(0, i as int),
        decreases key@.len() - i,
    {
        r.push(key[i]);
        i = i + 1;
        assert(r@ =~= key@.subrange(0, i as int));
    }
    r.push(':');
    proof { reveal_strlit(":"); }
    assert(r@ =~= colon(key@));
    r
}

fn anchors_exec(keys: &Vec<Vec<char>>, n: usize) -> (r: Vec<Vec<char>>)
    requires
        n <= keys@.len(),
    ensures
        texts_view(r@) == anchors_of(texts_view(keys@).subrange(0, n as int)),
{
    let mut r: Vec<Vec<char>> = Vec::new();
    let mut i: usize = 0;
    while i < n
        invariant
            n <= keys@.len(),
            i <= n,
            texts_view(r@) == anchors_of(texts_view(keys@).subrange(0, i as int)),
        decreases n - i,
    {
        let ghost before = r@;
        let ghost kv = texts_view(keys@);
        r.push(with_colon(&keys[i]));
        assert(texts_view(r@) =~= texts_view(before).push(colon(kv[i as int])));
        assert(kv.subrange(0, i + 1) =~= kv.subrange(0, i as int).push(kv[i as int]));
        assert(anchors_of(kv.subrange(0, i + 1)) =~= anchors_of(kv.subrange(0, i as int)).push(colon(kv[i as int])));
        i = i + 1;
    }
    r
}

fn span_of_choice(lines: &Vec<Vec<char>>, chosen: Option<(usize, usize)>, end_bytes: usize) -> (r: Option<SourceSpan>)
    requires
        forall|j: int| 0 <= j < lines@.len() ==> measurable((#[trigger] lines@[j])@),
        lines@.len() < usize::MAX,
        end_bytes <= usize::MAX / 2,
        match chosen {
            Some((m, k)) => m < lines@.len() && k <= lines@[m as int]@.len(),
            None => true,
        },
    ensures
        match chosen {
            None => r is None,
            Some((m, k)) => span_option_view(r) == Some(
                SpanV {
                    line: (m + 1) as nat,
                    column: byte_len(lines@[m as int]@.take(k as int)) + 1,
                    end_line: (m + 1) as nat,
                    end_column: byte_len(lines@[m as int]@.take(k as int)) + end_bytes as nat,
                },
            ),
        },
{
    match chosen {
        None => None,
        Some((m, k)) => {
            assert(measurable(lines@[m as int]@));
            proof { lemma_byte_len_bound(lines@[m as int]@.take(k as int)); }
            let column = prefix_bytes(&lines[m], k);
            Some(SourceSpan { line: m + 1, column: column + 1, end_line: m + 1, end_column: column + end_bytes })
        },
    }
}

pub fn find_path_key_span(source: &str, path: &str) -> (r: Option<SourceSpan>)
    ensures
        span_option_view(r) == path_key_span(source@, path@),
{
    let keys = path_keys(path);
    let lines = match searchable_lines(source) {
        Some(lines) => lines,
        None => return None,
    };
    if keys.len() == 0 {
        return None;
    }
    let ghost kv = texts_view(keys@);
    let last = keys.len() - 1;
    assert(kv.last() == keys@[last as int]@);
    assert(kv.subrange(0, last as int) =~= kv.drop_last());
    let token = with_colon(&keys[last]);
    let anchors = anchors_exec(&keys, last);
    proof { reveal_strlit(":"); }
    let chosen = best_line_exec(&lines, &token, &anchors, 40);
    match chosen {
        None => None,
        Some((m, k)) => {
            assert(keys@[last as int]@.len() + 1 <= lines@[m as int]@.len());
            assert(measurable(lines@[m as int]@));
            proof { lemma_byte_len_bound(keys@[last as int]@); }
            let key_bytes = text_bytes(&keys[last]);
            let r = span_of_choice(&lines, chosen, key_bytes);
            assert(lines_view(lines@)[m as int] == lines@[m as int]@);
            r
        },
    }
}

/// Where a constructor of the contract at `path` is written.
pub fn find_constructor_span(source: &str, path: &str, constructor: &str) -> (r: Option<SourceSpan>)
    ensures
        span_option_view(r) == constructor_span(source@, path@, constructor@),
{
    let keys = path_keys(path);
    let lines = match searchable_lines(source) {
        Some(lines) => lines,
        None => return None,
    };
    let name = text_chars(constructor);
    let token = with_colon(&name);
    assert(texts_view(keys@).subrange(0, keys@.len() as int) =~= texts_view(keys@));
    let anchors = anchors_exec(&keys, keys.len());
    proof { reveal_strlit(":"); }
    let chosen = best_line_exec(&lines, &token, &anchors, 60);
    match chosen {
        None => None,
        Some((m, k)) => {
            assert(name@.len() + 1 <= lines@[m as int]@.len());
            assert(measurable(lines@[m as int]@));
            proof { lemma_byte_len_bound(constructor@); }
            let name_bytes = text_bytes(&name);
            let r = span_of_choice(&lines, chosen, name_bytes);
            assert(lines_view(lines@)[m as int] == lines@[m as int]@);
            r
        },
    }
}

/// The constructors a contract's root may start with, in the order they are
/// looked for.
pub open spec fn root_constructors() -> Seq<Seq<char>> {
    seq!["Close"@, "Pay"@, "If"@, "When"@, "Let"@, "Assert"@]
}

pub open spec fn first_prefixed(t: Seq<char>, names: Seq<Seq<char>>, i: nat) -> Option<Seq<char>>
    decreases names.len() - i,
{
    if i >= names.len() {
        None
    } else if has_prefix(t, colon(names[i as int])) {
        Some(names[i as int])
    } else {
        first_prefixed(t, names, i + 1)
    }
}

proof fn lemma_first_prefixed(t: Seq<char>, names: Seq<Seq<char>>, i: nat)
    ensures
        first_prefixed(t, names, i) matches Some(c) ==> has_prefix(t, colon(c)),
    decreases names.len() - i,
{
    if i < names.len() && !has_prefix(t, colon(names[i as int])) {
        lemma_first_prefixed(t, names, i + 1);
    }
}

/// The constructor a line starts with after its indentation, if any.
pub open spec fn leading_constructor(line: Seq<char>) -> Option<Seq<char>> {
    first_prefixed(trim_start(line), root_constructors(), 0)
}

/// The bytes of a line's indentation.
pub open spec fn indent_bytes(line: Seq<char>) -> nat {
    byte_len(line.take(line.len() - trim_start(line).len()))
}

pub open spec fn root_span_from(lines: Seq<Seq<char>>, i: nat) -> Option<SpanV>
    decreases lines.len() - i,
{
    if i >= lines.len() {
        None
    } else {
        match leading_constructor(lines[i as int]) {
            Some(c) => Some(
                SpanV {
                    line: i + 1,
                    column: indent_bytes(lines[i as int]) + 1,
                    end_line: i + 1,
                    end_column: indent_bytes(lines[i as int]) + byte_len(c),
                },
            ),
            None => root_span_from(lines, i + 1),
        }
    }
}

/// Where the root contract is written: the first line that starts, after its
/// indentation, with a contract constructor.
pub open spec fn root_contract_span(source: Seq<char>) -> Option<SpanV> {
    if measurable(source) {
        root_span_from(lines_of(source), 0)
    } else {
        None
    }
}

fn leading_white_space(line: &Vec<char>) -> (w: usize)
    ensures
        w <= line@.len(),
        trim_start(line@) == line@.skip(w as int),
{
    let mut w: usize = 0;
    assert(line@.skip(0) =~= line@);
    while w < line.len() && is_white_space_char(line[w])
        invariant
            w <= line@.len(),
            trim_start(line@) == trim_start(line@.skip(w as int)),
        decreases line@.len() - w,
    {
        assert(line@.skip(w as int).drop_first() =~= line@.skip(w + 1));
        assert(line@.skip(w as int)[0] == line@[w as int]);
        w = w + 1;
    }
    if w < line.len() {
        assert(line@.skip(w as int)[0] == line@[w as int]);
    } else {
        assert(line@.skip(w as int).len() == 0);
    }
    w
}

fn prefixed_at(line: &Vec<char>, w: usize, pattern: &Vec<char>) -> (r: bool)
    requires
        w <= line@.len(),
    ensures
        r == has_prefix(line@.skip(w as int), pattern@),
{
    let ghost t = line@.skip(w as int);
    assert(line@.len() <= usize::MAX) by {
        assert(line.len() == line@.len());
    }
    if pattern.len() > line.len() - w {
        return false;
    }
    let mut i: usize = 0;
    while i < pattern.len()
        invariant
            t == line@.skip(w as int),
            w <= line@.len(),
            pattern@.len() <= t.len(),
            t.len() == line@.len() - w,
            line@.len() <= usize::MAX,
            i <= pattern@.len(),
            forall|q: int| 0 <= q < i ==> t[q] == pattern@[q],
        decreases pattern@.len() - i,
    {
        assert(t[i as int] == line@[w + i]);
        if line[w + i] != pattern[i] {
            assert(t.subrange(0, pattern@.len() as int)[i as int] != pattern@[i as int]);
            return false;
        }
        i = i + 1;
    }
    assert(t.subrange(0, pattern@.len() as int) =~= pattern@);
    true
}

fn root_constructor_name(i: usize) -> (r: &'static str)
    requires
        i < 6,
    ensures
        r@ == root_constructors()[i as int],
{
    if i == 0 {
        "Close"
    } else if i == 1 {
        "Pay"
    } else if i == 2 {
        "If"
    } else if i == 3 {
        "When"
    } else if i == 4 {
        "Let"
    } else {
        "Assert"
    }
}

fn line_constructor(line: &Vec<char>, w: usize) -> (r: Option<&'static str>)
    requires
        w <= line@.len(),
    ensures
        match r {
            Some(c) => first_prefixed(line@.skip(w as int), root_constructors(), 0) == Some(c@),
            None => first_prefixed(line@.skip(w as int), root_constructors(), 0) is None,
        },
{
    let ghost t = line@.skip(w as int);
    let ghost names = root_constructors();
    let mut i: usize = 0;
    while i < 6
        invariant
            t == line@.skip(w as int),
            names == root_constructors(),
            w <= line@.len(),
            i <= 6,
            first_prefixed(t, names, 0) == first_prefixed(t, names, i as nat),
        decreases 6 - i,
    {
        let name = root_constructor_name(i);
        let pattern = with_colon(&text_chars(name));
        if prefixed_at(line, w, &pattern) {
            return Some(name);
        }
        i = i + 1;
    }
    None
}

pub fn locate_root_contract_span(source: &str) -> (r: Option<SourceSpan>)
    ensures
        span_option_view(r) == root_contract_span(source@),
{
    let lines = match searchable_lines(source) {
        Some(lines) => lines,
        None => return None,
    };
    let ghost lv = lines_view(lines@);
    let mut i: usize = 0;
    while i < lines.len()
        invariant
            lv == lines_view(lines@),
            lv == lines_of(source@),
            measurable(source@),
            lines@.len() <= source@.len(),
            forall|j: int| 0 <= j < lines@.len() ==> measurable((#[trigger] lines@[j])@),
            i <= lines@.len(),
            root_contract_span(source@) == root_span_from(lv, i as nat),
        decreases lines@.len() - i,
    {
        let line = &lines[i];
        assert(lv[i as int] == line@);
        assert(measurable(line@));
        let w = leading_white_space(line);
        match line_constructor(line, w) {
            Some(name) => {
                proof {
                    lemma_byte_len_bound(line@.take(w as int));
                    lemma_byte_len_bound(name@);
                    assert(line@.skip(w as int).len() == line@.len() - w);
                    assert(line@.len() - trim_start(line@).len() == w);
                }
                let name_chars = text_chars(name);
                assert(name@.len() <= line@.len()) by {
                    lemma_first_prefixed(line@.skip(w as int), root_constructors(), 0);
                    assert(has_prefix(line@.skip(w as int), colon(name@)));
                    reveal_strlit(":");
                }
                let indent = prefix_bytes(line, w);
                let name_bytes = text_bytes(&name_chars);
                return Some(SourceSpan { line: i + 1, column: indent + 1, end_line: i + 1, end_column: indent + name_bytes });
            },
            None => {},
        }
        i = i + 1;
    }
    None
}

/// The first value listed under `key`.
pub open spec fn detail_value(details: Seq<(Seq<char>, Seq<char>)>, key: Seq<char>) -> Option<Seq<char>>
    decreases details.len(),
{
    if details.len() == 0 {
        None
    } else if details[0].0 == key {
        Some(details[0].1)
    } else {
        detail_value(details.drop_first(), key)
    }
}

pub open spec fn details_view(d: Seq<(String, String)>) -> Seq<(Seq<char>, Seq<char>)> {
    d.map_values(|e: (String, String)| (e.0@, e.1@))
}

/// Where a diagnostic points: for an unresolved hole or parameter, the first
/// place its name is written (`?name`, `$name`); otherwise, or when that is
/// not found, the last key of its path.
pub open spec fn diagnostic_span(source: Seq<char>, path: Seq<char>, subcode: Seq<char>, details: Seq<(Seq<char>, Seq<char>)>) -> Option<SpanV> {
    let name = detail_value(details, "name"@);
    if subcode == "HoleUnresolved"@ && name is Some && token_span(source, "?"@ + name->0) is Some {
        token_span(source, "?"@ + name->0)
    } else if subcode == "ParamUnresolved"@ && name is Some && token_span(source, "$"@ + name->0) is Some {
        token_span(source, "$"@ + name->0)
    } else {
        path_key_span(source, path)
    }
}

fn find_detail<'a>(details: &'a Vec<(String, String)>, key: &str) -> (r: Option<&'a String>)
    ensures
        match r {
            Some(v) => detail_value(details_view(details@), key@) == Some(v@),
            None => detail_value(details_view(details@), key@) is None,
        },
{
    let ghost dv = details_view(details@);
    let mut i: usize = 0;
    assert(dv.skip(0) =~= dv);
    while i < details.len()
        invariant
            dv == details_view(details@),
            i <= details@.len(),
            detail_value(dv, key@) == detail_value(dv.skip(i as int), key@),
        decreases details@.len() - i,
    {
        assert(dv.skip(i as int)[0] == (details@[i as int].0@, details@[i as int].1@));
        assert(dv.skip(i as int).drop_first() =~= dv.skip(i + 1));
        if crate::text::same_text(details[i].0.as_str(), key) {
            return Some(&details[i].1);
        }
        i = i + 1;
    }
    assert(dv.skip(i as int).len() == 0);
    None
}

pub fn locate_diagnostic_span(source: &str, path: &str, subcode: &str, details: &Vec<(String, String)>) -> (r: Option<SourceSpan>)
    ensures
        span_option_view(r) == diagnostic_span(source@, path@, subcode@, details_view(details@)),
{
    proof {
        reveal_strlit("name");
        reveal_strlit("HoleUnresolved");
        reveal_strlit("ParamUnresolved");
        reveal_strlit("?");
        reveal_strlit("$");
    }
    let name = find_detail(details, "name");
    if crate::text::same_text(subcode, "HoleUnresolved") {
        if let Some(name) = name {
            let token = crate::parser::join2("?", name.as_str());
            let found = find_token_span(source, token.as_str());
            if found.is_some() {
                return found;
            }
        }
    }
    if crate::text::same_text(subcode, "ParamUnresolved") {
        if let Some(name) = name {
            let token = crate::parser::join2("$", name.as_str());
            let found = find_token_span(source, token.as_str());
            if found.is_some() {
                return found;
            }
        }
    }
    find_path_key_span(source, path)
}

} // verus!
