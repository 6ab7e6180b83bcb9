use vstd::prelude::*;
use vstd::seq_lib::lemma_flatten_concat;
use crate::strings::{is_ws, is_whitespace, lower_of, push_char, same_chars, to_lowercase};

verus! {

// Text segmentation: input text to phrase-sized chunks for one synthesis call each.

pub type Word = Seq<char>;

/// Words per chunk after which a trailing comma closes the chunk.
pub const WORDS_PER_CHUNK: usize = 10;

/// Chunks with at least this many words are split further.
pub const SPLIT_THRESHOLD: usize = 12;

/// Recursion depth at which a chunk is kept whatever its length.
pub const MAX_SPLIT_DEPTH: usize = 3;

/// Split points closer than this to a chunk's start are not used.
pub const MIN_SPLIT_POS: usize = 3;

/// Numbered list items: optional `(`, digits, then `.`, `)` or `:`, then optional `,`.
pub const NUMBERED_ITEM_PATTERN: &'static str = r"^\(?[0-9]+[.\)\:],?$";

/// Appends `cur` to `done` unless it is empty.
pub open spec fn flush<A>(done: Seq<Seq<A>>, cur: Seq<A>) -> Seq<Seq<A>> {
    if cur.len() > 0 {
        done.push(cur)
    } else {
        done
    }
}

/// Words found so far in `s` and the word still being read.
pub open spec fn scan_words(s: Seq<char>) -> (Seq<Word>, Word)
    decreases s.len(),
{
    if s.len() == 0 {
        (seq![], seq![])
    } else {
        let (done, cur) = scan_words(s.drop_last());
        if is_ws(s.last()) {
            (flush(done, cur), seq![])
        } else {
            (done, cur.push(s.last()))
        }
    }
}

/// The maximal runs of non-whitespace characters of `s`, in order.
pub open spec fn split_words(s: Seq<char>) -> Seq<Word> {
    flush(scan_words(s).0, scan_words(s).1)
}

/// Words joined with single spaces.
pub open spec fn join(ws: Seq<Word>) -> Seq<char>
    decreases ws.len(),
{
    if ws.len() == 0 {
        seq![]
    } else if ws.len() == 1 {
        ws[0]
    } else {
        join(ws.drop_last()) + seq![' '] + ws.last()
    }
}

/// `s` with every run of whitespace turned into one space and none at either end.
pub open spec fn normalize_whitespace(s: Seq<char>) -> Seq<char> {
    join(split_words(s))
}

/// A word that needs no further split: non-empty, without whitespace.
pub open spec fn is_word(w: Word) -> bool {
    w.len() > 0 && forall|k: int| 0 <= k < w.len() ==> !is_ws(#[trigger] w[k])
}

pub open spec fn ends_with(w: Word, c: char) -> bool {
    w.len() > 0 && w.last() == c
}

pub open spec fn is_digit(c: char) -> bool {
    '0' <= c <= '9'
}

/// What the numbered-item pattern accepts.
pub open spec fn numbered_item(w: Word) -> bool {
    let a = if w.len() > 0 && w[0] == '(' {
        w.drop_first()
    } else {
        w
    };
    let b = if ends_with(a, ',') {
        a.drop_last()
    } else {
        a
    };
    b.len() >= 2 && (b.last() == '.' || b.last() == ')' || b.last() == ':') && forall|k: int|
        0 <= k < b.len() - 1 ==> is_digit(#[trigger] b[k])
}

/// Relies on `regex::Regex::new` and `Regex::is_match`: with the numbered-item
/// pattern (anchored at both ends, no flags) a match means the whole word has
/// the shape that `numbered_item` describes.
#[verifier::external_body]
fn regex_is_match(pattern: &str, haystack: &str) -> (r: bool)
    requires
        pattern@ == NUMBERED_ITEM_PATTERN@,
    ensures
        r == numbered_item(haystack@),
{
    regex::Regex::new(pattern).is_ok_and(|re| re.is_match(haystack))
}

/// Whether a word opens a numbered list item ("1.", "(2)", "3:,").
pub fn is_numbered_list_item(word: &str) -> (r: bool)
    ensures
        r == numbered_item(word@),
{
    regex_is_match(NUMBERED_ITEM_PATTERN, word)
}

pub open spec fn words_view(v: Seq<String>) -> Seq<Word> {
    v.map_values(|s: String| s@)
}

/// The words of `text`, split at Unicode whitespace.
pub fn split_whitespace(text: &str) -> (r: Vec<String>)
    ensures
        words_view(r@) == split_words(text@),
        forall|i: int| 0 <= i < r@.len() ==> is_word(#[trigger] r@[i]@),
{
    let n = text.unicode_len();
    let mut out: Vec<String> = Vec::new();
    let mut cur = String::new();
    let mut i: usize = 0;
    while i < n
        invariant
            n == text@.len(),
            i <= n,
            (words_view(out@), cur@) == scan_words(text@.subrange(0, i as int)),
            forall|j: int| 0 <= j < out@.len() ==> is_word(#[trigger] out@[j]@),
            forall|k: int| 0 <= k < cur@.len() ==> !is_ws(#[trigger] cur@[k]),
        decreases n - i,
    {
        let c = text.get_char(i);
        assert(text@.subrange(0, i + 1).drop_last() =~= text@.subrange(0, i as int));
        if is_whitespace(c) {
            if cur.unicode_len() > 0 {
                let ghost before = out@;
                out.push(cur);
                assert(words_view(out@) =~= words_view(before).push(out@.last()@));
                cur = String::new();
            }
        } else {
            push_char(&mut cur, c);
        }
        i += 1;
    }
    assert(text@.subrange(0, n as int) =~= text@);
    if cur.unicode_len() > 0 {
        let ghost before = out@;
        out.push(cur);
        assert(words_view(out@) =~= words_view(before).push(out@.last()@));
    }
    out
}

pub open spec fn chunks_view(v: Seq<Vec<String>>) -> Seq<Seq<Word>> {
    v.map_values(|c: Vec<String>| words_view(c@))
}

/// Every chunk has at least one word and every word is a proper word.
pub open spec fn proper_chunks(cs: Seq<Seq<Word>>) -> bool {
    forall|i: int|
        0 <= i < cs.len() ==> #[trigger] cs[i].len() > 0 && forall|j: int|
            0 <= j < cs[i].len() ==> is_word(#[trigger] cs[i][j])
}

/// Sentence punctuation that always closes a chunk.
pub open spec fn closes_chunk(w: Word) -> bool {
    ends_with(w, '.') || ends_with(w, '!') || ends_with(w, '?') || ends_with(w, ':') || ends_with(
        w,
        ';',
    )
}

/// One word of the primary split: closed chunks so far and the open chunk.
pub open spec fn group_step(state: (Seq<Seq<Word>>, Seq<Word>), w: Word, words_per_chunk: nat) -> (
    Seq<Seq<Word>>,
    Seq<Word>,
) {
    let (done, cur) = state;
    let numbered = numbered_item(w);
    let (done1, cur1) = if numbered && cur.len() > 0 {
        (done.push(cur), seq![w])
    } else {
        (done, cur.push(w))
    };
    if (closes_chunk(w) && !numbered) || (ends_with(w, ',') && cur1.len() >= words_per_chunk) {
        (done1.push(cur1), seq![])
    } else {
        (done1, cur1)
    }
}

pub open spec fn group_scan(ws: Seq<Word>, words_per_chunk: nat) -> (Seq<Seq<Word>>, Seq<Word>)
    decreases ws.len(),
{
    if ws.len() == 0 {
        (seq![], seq![])
    } else {
        group_step(group_scan(ws.drop_last(), words_per_chunk), ws.last(), words_per_chunk)
    }
}

/// The primary split: chunks closed after sentence punctuation, and after a
/// comma once they hold `words_per_chunk` words; a numbered item opens a new
/// chunk (its own '.', ':' or ')' does not close it).
pub open spec fn group_words_spec(ws: Seq<Word>, words_per_chunk: nat) -> Seq<Seq<Word>> {
    flush(group_scan(ws, words_per_chunk).0, group_scan(ws, words_per_chunk).1)
}

/// Whether a word ends with `c`.
fn word_ends_with(w: &String, c: char) -> (r: bool)
    ensures
        r == ends_with(w@, c),
{
    let s = w.as_str();
    let n = s.unicode_len();
    n > 0 && s.get_char(n - 1) == c
}

fn word_closes_chunk(w: &String) -> (r: bool)
    ensures
        r == closes_chunk(w@),
{
    word_ends_with(w, '.') || word_ends_with(w, '!') || word_ends_with(w, '?') || word_ends_with(
        w,
        ':',
    ) || word_ends_with(w, ';')
}

proof fn lemma_push_view(v: Seq<String>, s: String)
    ensures
        words_view(v.push(s)) == words_view(v).push(s@),
{
    assert(words_view(v.push(s)) =~= words_view(v).push(s@));
}

proof fn lemma_push_chunk_view(v: Seq<Vec<String>>, c: Vec<String>)
    ensures
        chunks_view(v.push(c)) == chunks_view(v).push(words_view(c@)),
{
    assert(chunks_view(v.push(c)) =~= chunks_view(v).push(words_view(c@)));
}

/// Primary split of a word sequence into chunks.
fn group_words(words: &Vec<String>, words_per_chunk: usize) -> (r: Vec<Vec<String>>)
    requires
        forall|i: int| 0 <= i < words@.len() ==> is_word(#[trigger] words@[i]@),
    ensures
        chunks_view(r@) == group_words_spec(words_view(words@), words_per_chunk as nat),
        proper_chunks(chunks_view(r@)),
{
    let ghost ws = words_view(words@);
    let mut done: Vec<Vec<String>> = Vec::new();
    let mut cur: Vec<String> = Vec::new();
    let mut i: usize = 0;
    while i < words.len()
        invariant
            ws == words_view(words@),
            forall|j: int| 0 <= j < words@.len() ==> is_word(#[trigger] words@[j]@),
            i <= words@.len(),
            (chunks_view(done@), words_view(cur@)) == group_scan(
                ws.subrange(0, i as int),
                words_per_chunk as nat,
            ),
            proper_chunks(chunks_view(done@)),
            forall|j: int| 0 <= j < cur@.len() ==> is_word(#[trigger] cur@[j]@),
        decreases words@.len() - i,
    {
        let w = &words[i];
        assert(ws.subrange(0, i + 1).drop_last() =~= ws.subrange(0, i as int));
        assert(ws.subrange(0, i + 1).last() == w@);
        let numbered = is_numbered_list_item(w.as_str());
        if numbered && cur.len() > 0 {
            proof {
                lemma_push_chunk_view(done@, cur);
            }
            done.push(cur);
            cur = Vec::new();
        }
        let copy = w.clone();
        proof {
            lemma_push_view(cur@, copy);
        }
        cur.push(copy);
        if (word_closes_chunk(w) && !numbered) || (word_ends_with(w, ',') && cur.len()
            >= words_per_chunk) {
            proof {
                lemma_push_chunk_view(done@, cur);
            }
            done.push(cur);
            cur = Vec::new();
        }
        assert(words_view(Seq::<String>::empty()) =~= Seq::<Word>::empty());
        i += 1;
    }
    assert(ws.subrange(0, words@.len() as int) =~= ws);
    if cur.len() > 0 {
        proof {
            lemma_push_chunk_view(done@, cur);
        }
        done.push(cur);
    }
    done
}

/// The conjunctions before which an over-long chunk may be split (compared in lower case).
pub open spec fn is_break_word(w: Seq<char>) -> bool {
    w == "and"@ || w == "or"@ || w == "but"@ || w == "&"@ || w == "because"@ || w == "if"@ || w
        == "since"@ || w == "though"@ || w == "although"@ || w == "however"@ || w == "which"@
}

/// Whether a word, case-folded, is a break word.
pub open spec fn breaks_before(w: Word) -> bool {
    is_break_word(lower_of(w))
}

pub open spec fn comma_marks(ws: Seq<Word>) -> Seq<bool> {
    ws.map_values(|w: Word| ends_with(w, ','))
}

pub open spec fn break_marks(ws: Seq<Word>) -> Seq<bool> {
    ws.map_values(|w: Word| breaks_before(w))
}

pub open spec fn dist(i: int, center: int) -> int {
    if i < center {
        center - i
    } else {
        i - center
    }
}

/// `i` is the marked position nearest to `center`; of two equally near, the left one.
pub open spec fn is_nearest(marks: Seq<bool>, center: int, i: int) -> bool {
    &&& 0 <= i < marks.len()
    &&& marks[i]
    &&& forall|j: int|
        0 <= j < marks.len() && #[trigger] marks[j] ==> dist(i, center) < dist(j, center) || (dist(
            i,
            center,
        ) == dist(j, center) && i <= j)
}

/// The marked position nearest to `center`, if any position is marked.
pub open spec fn nearest(marks: Seq<bool>, center: int) -> Option<int> {
    if exists|i: int| is_nearest(marks, center, i) {
        Some(choose|i: int| is_nearest(marks, center, i))
    } else {
        None
    }
}

proof fn lemma_nearest_unique(marks: Seq<bool>, center: int, i: int)
    requires
        is_nearest(marks, center, i),
    ensures
        nearest(marks, center) == Some(i),
{
    let k = choose|k: int| is_nearest(marks, center, k);
    assert(is_nearest(marks, center, k));
    assert(marks[i] && marks[k]);
}

/// The nearest marked position to `center`, scanning left to right.
fn nearest_marked(marks: &Vec<bool>, center: usize) -> (r: Option<usize>)
    requires
        center < usize::MAX,
    ensures
        match nearest(marks@, center as int) {
            Some(i) => r == Some(i as usize),
            None => r is None,
        },
{
    let mut best: Option<usize> = None;
    let mut min_distance: usize = usize::MAX;
    let mut i: usize = 0;
    while i < marks.len()
        invariant
            center < usize::MAX,
            i <= marks@.len(),
            match best {
                None => min_distance == usize::MAX && forall|j: int| 0 <= j < i ==> !marks@[j],
                Some(b) => {
                    &&& b < i
                    &&& marks@[b as int]
                    &&& min_distance == dist(b as int, center as int)
                    &&& forall|j: int|
                        0 <= j < i && #[trigger] marks@[j] ==> dist(b as int, center as int) < dist(
                            j,
                            center as int,
                        ) || (dist(b as int, center as int) == dist(j, center as int) && b <= j)
                },
            },
        decreases marks@.len() - i,
    {
        if marks[i] {
            let distance = if i < center {
                center - i
            } else {
                i - center
            };
            if distance < min_distance {
                min_distance = distance;
                best = Some(i);
            }
        }
        i += 1;
    }
    match best {
        Some(b) => {
            proof {
                lemma_nearest_unique(marks@, center as int, b as int);
            }
        },
        None => {
            assert(!exists|k: int| is_nearest(marks@, center as int, k));
        },
    }
    best
}

/// Whether an already lower-cased word is one of the break words.
pub fn is_lower_break_word(l: &str) -> (r: bool)
    ensures
        r == is_break_word(l@),
{
    same_chars(l, "and") || same_chars(l, "or") || same_chars(l, "but") || same_chars(l, "&")
        || same_chars(l, "because") || same_chars(l, "if") || same_chars(l, "since") || same_chars(
        l,
        "though",
    ) || same_chars(l, "although") || same_chars(l, "however") || same_chars(l, "which")
}

/// Whether a word, case-folded, is one of the break words.
fn is_break_word_exec(w: &String) -> (r: bool)
    ensures
        r == breaks_before(w@),
{
    let lower = to_lowercase(w.as_str());
    is_lower_break_word(lower.as_str())
}

/// The split position after the comma-ended word nearest to `center`.
pub fn find_closest_punctuation(words: &Vec<String>, center: usize) -> (r: Option<usize>)
    requires
        center < usize::MAX,
    ensures
        match nearest(comma_marks(words_view(words@)), center as int) {
            Some(i) => r == Some((i + 1) as usize),
            None => r is None,
        },
{
    let mut marks: Vec<bool> = Vec::new();
    let mut i: usize = 0;
    while i < words.len()
        invariant
            i <= words@.len(),
            marks@ =~= comma_marks(words_view(words@)).subrange(0, i as int),
        decreases words@.len() - i,
    {
        marks.push(word_ends_with(&words[i], ','));
        i += 1;
    }
    assert(marks@ =~= comma_marks(words_view(words@)));
    match nearest_marked(&marks, center) {
        Some(p) => Some(p + 1),
        None => None,
    }
}

/// The position of the break word nearest to `center`.
pub fn find_closest_break_word(words: &Vec<String>, center: usize) -> (r: Option<usize>)
    requires
        center < usize::MAX,
    ensures
        match nearest(break_marks(words_view(words@)), center as int) {
            Some(i) => r == Some(i as usize),
            None => r is None,
        },
{
    let mut marks: Vec<bool> = Vec::new();
    let mut i: usize = 0;
    while i < words.len()
        invariant
            i <= words@.len(),
            marks@ =~= break_marks(words_view(words@)).subrange(0, i as int),
        decreases words@.len() - i,
    {
        marks.push(is_break_word_exec(&words[i]));
        i += 1;
    }
    assert(marks@ =~= break_marks(words_view(words@)));
    nearest_marked(&marks, center)
}

/// Where an over-long chunk splits, if it does: after the comma nearest its
/// middle (only where commas are preferred), else before the break word nearest
/// its middle; a position under three words from the start is not used.
pub open spec fn split_point(ws: Seq<Word>, use_punctuation: bool) -> Option<int> {
    let center = ws.len() / 2;
    let comma = nearest(comma_marks(ws), center as int);
    let brk = nearest(break_marks(ws), center as int);
    if use_punctuation && comma is Some && comma->0 + 1 >= MIN_SPLIT_POS && comma->0 + 1 < ws.len() {
        Some(comma->0 + 1)
    } else if brk is Some && brk->0 >= MIN_SPLIT_POS && brk->0 < ws.len() {
        Some(brk->0)
    } else {
        None
    }
}

/// Recursive rebalancing of one chunk, down to depth three.
pub open spec fn split_chunk(ws: Seq<Word>, threshold: nat, use_punctuation: bool, depth: nat) -> Seq<
    Seq<Word>,
>
    decreases MAX_SPLIT_DEPTH - depth,
{
    if depth >= MAX_SPLIT_DEPTH || ws.len() < threshold {
        seq![ws]
    } else {
        match split_point(ws, use_punctuation) {
            Some(pos) => split_chunk(ws.take(pos), threshold, use_punctuation, depth + 1)
                + split_chunk(ws.skip(pos), threshold, use_punctuation, depth + 1),
            None => seq![ws],
        }
    }
}

/// A piece that rebalancing leaves whole at any depth: short, or without a
/// qualifying split point.
pub open spec fn settled(p: Seq<Word>, threshold: nat, use_punctuation: bool) -> bool {
    p.len() < threshold || split_point(p, use_punctuation) is None
}

/// The depth at which each piece of `split_chunk` was produced.
pub open spec fn split_depths(ws: Seq<Word>, threshold: nat, use_punctuation: bool, depth: nat) -> Seq<
    nat,
>
    decreases MAX_SPLIT_DEPTH - depth,
{
    if depth >= MAX_SPLIT_DEPTH || ws.len() < threshold {
        seq![depth]
    } else {
        match split_point(ws, use_punctuation) {
            Some(pos) => split_depths(ws.take(pos), threshold, use_punctuation, depth + 1)
                + split_depths(ws.skip(pos), threshold, use_punctuation, depth + 1),
            None => seq![depth],
        }
    }
}

/// Every piece of a rebalanced chunk is shorter than the threshold, or has no
/// qualifying split point, or was produced at the depth cap.
pub proof fn lemma_split_pieces_settled(
    ws: Seq<Word>,
    threshold: nat,
    use_punctuation: bool,
    depth: nat,
)
    requires
        depth <= MAX_SPLIT_DEPTH,
    ensures
        split_depths(ws, threshold, use_punctuation, depth).len() == split_chunk(
            ws,
            threshold,
            use_punctuation,
            depth,
        ).len(),
        forall|i: int|
            0 <= i < split_chunk(ws, threshold, use_punctuation, depth).len() ==> settled(
                #[trigger] split_chunk(ws, threshold, use_punctuation, depth)[i],
                threshold,
                use_punctuation,
            ) || split_depths(ws, threshold, use_punctuation, depth)[i] == MAX_SPLIT_DEPTH,
    decreases MAX_SPLIT_DEPTH - depth,
{
    if depth >= MAX_SPLIT_DEPTH || ws.len() < threshold {
    } else {
        match split_point(ws, use_punctuation) {
            Some(pos) => {
                let a = ws.take(pos);
                let b = ws.skip(pos);
                lemma_split_pieces_settled(a, threshold, use_punctuation, depth + 1);
                lemma_split_pieces_settled(b, threshold, use_punctuation, depth + 1);
                let pa = split_chunk(a, threshold, use_punctuation, depth + 1);
                let pb = split_chunk(b, threshold, use_punctuation, depth + 1);
                let da = split_depths(a, threshold, use_punctuation, depth + 1);
                let db = split_depths(b, threshold, use_punctuation, depth + 1);
                assert forall|i: int| 0 <= i < (pa + pb).len() implies settled(
                    #[trigger] (pa + pb)[i],
                    threshold,
                    use_punctuation,
                ) || (da + db)[i] == MAX_SPLIT_DEPTH by {
                    if i < pa.len() {
                        assert((pa + pb)[i] == pa[i]);
                        assert((da + db)[i] == da[i]);
                    } else {
                        assert((pa + pb)[i] == pb[i - pa.len()]);
                        assert((da + db)[i] == db[i - pa.len()]);
                    }
                }
            },
            None => {},
        }
    }
}

/// Copies of the words in `lo..hi`.
fn copy_words(words: &Vec<String>, lo: usize, hi: usize) -> (r: Vec<String>)
    requires
        lo <= hi <= words@.len(),
    ensures
        r@ == words@.subrange(lo as int, hi as int),
{
    let mut out: Vec<String> = Vec::new();
    let mut i: usize = lo;
    while i < hi
        invariant
            lo <= i <= hi <= words@.len(),
            out@ == words@.subrange(lo as int, i as int),
        decreases hi - i,
    {
        out.push(words[i].clone());
        assert(out@ =~= words@.subrange(lo as int, i + 1));
        i += 1;
    }
    out
}

proof fn lemma_concat_chunks_view(a: Seq<Vec<String>>, b: Seq<Vec<String>>)
    ensures
        chunks_view(a + b) == chunks_view(a) + chunks_view(b),
{
    assert(chunks_view(a + b) =~= chunks_view(a) + chunks_view(b));
}

/// Splits a chunk of `threshold` or more words near its middle, recursively,
/// until the pieces are short, no split point qualifies, or depth three is reached.
pub fn split_long_chunk_with_depth(
    words: &Vec<String>,
    threshold: usize,
    use_punctuation: bool,
    depth: usize,
) -> (r: Vec<Vec<String>>)
    requires
        depth <= MAX_SPLIT_DEPTH,
        words@.len() > 0,
        forall|i: int| 0 <= i < words@.len() ==> is_word(#[trigger] words@[i]@),
    ensures
        chunks_view(r@) == split_chunk(
            words_view(words@),
            threshold as nat,
            use_punctuation,
            depth as nat,
        ),
        proper_chunks(chunks_view(r@)),
    decreases MAX_SPLIT_DEPTH - depth,
{
    let ghost ws = words_view(words@);
    let n = words.len();
    if depth >= MAX_SPLIT_DEPTH || n < threshold {
        let r = vec![copy_words(words, 0, n)];
        assert(words@.subrange(0, n as int) =~= words@);
        assert(chunks_view(r@) =~= seq![ws]);
        return r;
    }
    let center = n / 2;
    let mut pos: Option<usize> = None;
    if use_punctuation {
        match find_closest_punctuation(words, center) {
            Some(p) => {
                if p >= MIN_SPLIT_POS && p < n {
                    pos = Some(p);
                }
            },
            None => {},
        }
    }
    if pos.is_none() {
        match find_closest_break_word(words, center) {
            Some(p) => {
                if p >= MIN_SPLIT_POS && p < n {
                    pos = Some(p);
                }
            },
            None => {},
        }
    }
    assert(match split_point(ws, use_punctuation) {
        Some(q) => pos == Some(q as usize),
        None => pos is None,
    });
    match pos {
        Some(p) => {
            let first = copy_words(words, 0, p);
            let second = copy_words(words, p, n);
            assert(words_view(first@) =~= ws.take(p as int));
            assert(words_view(second@) =~= ws.skip(p as int));
            let mut result = split_long_chunk_with_depth(&first, threshold, use_punctuation, depth + 1);
            let mut rest = split_long_chunk_with_depth(&second, threshold, use_punctuation, depth + 1);
            let ghost a = result@;
            let ghost b = rest@;
            result.append(&mut rest);
            proof {
                lemma_concat_chunks_view(a, b);
            }
            result
        },
        None => {
            let r = vec![copy_words(words, 0, n)];
            assert(words@.subrange(0, n as int) =~= words@);
            assert(chunks_view(r@) =~= seq![ws]);
            r
        },
    }
}

/// Rebalancing of every chunk; only the first two prefer commas.
pub open spec fn split_all(cs: Seq<Seq<Word>>, threshold: nat) -> Seq<Seq<Word>>
    decreases cs.len(),
{
    if cs.len() == 0 {
        seq![]
    } else {
        split_all(cs.drop_last(), threshold) + split_chunk(
            cs.last(),
            threshold,
            cs.len() - 1 < 2,
            0,
        )
    }
}

/// Moves a trailing break word of chunk `i` to the front of chunk `i + 1`.
pub open spec fn carry_at(cs: Seq<Seq<Word>>, i: int) -> Seq<Seq<Word>> {
    let cur = cs[i];
    if cur.len() > 1 && breaks_before(cur.last()) {
        cs.update(i, cur.drop_last()).update(i + 1, seq![cur.last()] + cs[i + 1])
    } else {
        cs
    }
}

/// The carry applied to the pairs starting at `0..n`, in order.
pub open spec fn carry_upto(cs: Seq<Seq<Word>>, n: nat) -> Seq<Seq<Word>>
    decreases n,
{
    if n == 0 {
        cs
    } else {
        carry_at(carry_upto(cs, (n - 1) as nat), n - 1)
    }
}

/// No chunk but the last ends on a break word (where it has more than that word).
pub open spec fn carry_break_words(cs: Seq<Seq<Word>>) -> Seq<Seq<Word>> {
    if cs.len() == 0 {
        cs
    } else {
        carry_upto(cs, (cs.len() - 1) as nat)
    }
}

/// The chunks of `text`, as word sequences.
pub open spec fn speech_chunk_words(text: Seq<char>, words_per_chunk: nat) -> Seq<Seq<Word>> {
    carry_break_words(
        split_all(
            group_words_spec(split_words(text), words_per_chunk),
            SPLIT_THRESHOLD as nat,
        ),
    )
}

/// The chunks of `text`, each its words joined with single spaces.
pub open spec fn speech_chunks(text: Seq<char>, words_per_chunk: nat) -> Seq<Seq<char>> {
    speech_chunk_words(text, words_per_chunk).map_values(|c: Seq<Word>| join(c))
}

pub open spec fn strings_view(v: Seq<String>) -> Seq<Seq<char>> {
    v.map_values(|s: String| s@)
}

/// Pass two over the chunks of the primary split.
fn split_all_chunks(chunks: &Vec<Vec<String>>) -> (r: Vec<Vec<String>>)
    requires
        proper_chunks(chunks_view(chunks@)),
    ensures
        chunks_view(r@) == split_all(chunks_view(chunks@), SPLIT_THRESHOLD as nat),
        proper_chunks(chunks_view(r@)),
{
    let ghost cs = chunks_view(chunks@);
    let mut out: Vec<Vec<String>> = Vec::new();
    let mut index: usize = 0;
    while index < chunks.len()
        invariant
            cs == chunks_view(chunks@),
            proper_chunks(cs),
            index <= chunks@.len(),
            chunks_view(out@) == split_all(cs.take(index as int), SPLIT_THRESHOLD as nat),
            proper_chunks(chunks_view(out@)),
        decreases chunks@.len() - index,
    {
        assert(cs[index as int] == words_view(chunks@[index as int]@));
        assert(cs[index as int].len() > 0);
        assert forall|j: int| 0 <= j < chunks@[index as int]@.len() implies is_word(
            #[trigger] chunks@[index as int]@[j]@,
        ) by {
            assert(cs[index as int][j] == chunks@[index as int]@[j]@);
        }
        let mut pieces = split_long_chunk_with_depth(
            &chunks[index],
            SPLIT_THRESHOLD,
            index < 2,
            0,
        );
        let ghost a = out@;
        let ghost b = pieces@;
        out.append(&mut pieces);
        proof {
            lemma_concat_chunks_view(a, b);
            assert(cs.take(index + 1).drop_last() =~= cs.take(index as int));
        }
        index += 1;
    }
    assert(cs.take(chunks@.len() as int) =~= cs);
    out
}

/// Pass three: trailing break words move to the start of the next chunk.
fn carry_trailing_break_words(chunks: &mut Vec<Vec<String>>)
    requires
        proper_chunks(chunks_view(old(chunks)@)),
    ensures
        chunks_view(final(chunks)@) == carry_break_words(chunks_view(old(chunks)@)),
        proper_chunks(chunks_view(final(chunks)@)),
{
    let ghost cs = chunks_view(chunks@);
    if chunks.len() == 0 {
        return;
    }
    let mut i: usize = 0;
    while i < chunks.len() - 1
        invariant
            chunks@.len() == cs.len(),
            cs.len() > 0,
            i + 1 <= cs.len(),
            chunks_view(chunks@) == carry_upto(cs, i as nat),
            proper_chunks(chunks_view(chunks@)),
        decreases cs.len() - i,
    {
        let ghost before = chunks_view(chunks@);
        let n = chunks[i].len();
        assert(before[i as int] == words_view(chunks@[i as int]@));
        if n > 1 && is_break_word_exec(&chunks[i][n - 1]) {
            let mut cur = copy_words(&chunks[i], 0, n);
            assert(chunks@[i as int]@.subrange(0, n as int) =~= chunks@[i as int]@);
            let last = cur.pop().unwrap();
            let m = chunks[i + 1].len();
            let mut rest = copy_words(&chunks[i + 1], 0, m);
            assert(chunks@[i + 1]@.subrange(0, m as int) =~= chunks@[i + 1]@);
            let mut next: Vec<String> = Vec::new();
            next.push(last);
            next.append(&mut rest);
            let ghost cur_v = cur@;
            let ghost next_v = next@;
            chunks.set(i, cur);
            chunks.set(i + 1, next);
            proof {
                assert(words_view(cur_v) =~= before[i as int].drop_last());
                assert(words_view(next_v) =~= seq![before[i as int].last()] + before[i + 1]);
                assert(chunks_view(chunks@) =~= carry_at(before, i as int));
                assert forall|k: int| 0 <= k < chunks@.len() implies #[trigger] chunks_view(
                    chunks@,
                )[k].len() > 0 && forall|j: int|
                    0 <= j < chunks_view(chunks@)[k].len() ==> is_word(
                        #[trigger] chunks_view(chunks@)[k][j],
                    ) by {
                    if k == i + 1 {
                        assert forall|j: int| 0 <= j < chunks_view(chunks@)[k].len() implies is_word(
                            #[trigger] chunks_view(chunks@)[k][j],
                        ) by {
                            if j > 0 {
                                assert(chunks_view(chunks@)[k][j] == before[i + 1][j - 1]);
                            } else {
                                assert(chunks_view(chunks@)[k][j] == before[i as int][n - 1]);
                            }
                        }
                    } else if k == i {
                        assert forall|j: int| 0 <= j < chunks_view(chunks@)[k].len() implies is_word(
                            #[trigger] chunks_view(chunks@)[k][j],
                        ) by {
                            assert(chunks_view(chunks@)[k][j] == before[i as int][j]);
                        }
                    } else {
                        assert(chunks_view(chunks@)[k] == before[k]);
                    }
                }
            }
        } else {
            assert(carry_at(before, i as int) == before);
        }
        i += 1;
    }
}

proof fn lemma_group_scan_flatten(ws: Seq<Word>, words_per_chunk: nat)
    ensures
        group_scan(ws, words_per_chunk).0.flatten() + group_scan(ws, words_per_chunk).1 == ws,
    decreases ws.len(),
{
    broadcast use Seq::lemma_flatten_push;

    if ws.len() > 0 {
        lemma_group_scan_flatten(ws.drop_last(), words_per_chunk);
        let (done, cur) = group_scan(ws.drop_last(), words_per_chunk);
        let w = ws.last();
        assert(ws =~= ws.drop_last().push(w));
        assert(done.push(cur).flatten() == done.flatten() + cur);
        assert(done.flatten() + cur.push(w) =~= done.flatten() + cur + seq![w]);
        assert((done.flatten() + cur) + seq![w] =~= done.flatten() + cur.push(w));
        let numbered = numbered_item(w);
        if numbered && cur.len() > 0 {
            assert(done.push(cur).push(seq![w]).flatten() == done.push(cur).flatten() + seq![w]);
        } else {
            assert(done.push(cur.push(w)).flatten() == done.flatten() + cur.push(w));
        }
        assert(ws.drop_last() + seq![w] =~= ws);
    }
}

proof fn lemma_group_flatten(ws: Seq<Word>, words_per_chunk: nat)
    ensures
        group_words_spec(ws, words_per_chunk).flatten() == ws,
{
    broadcast use Seq::lemma_flatten_push;

    lemma_group_scan_flatten(ws, words_per_chunk);
    let (done, cur) = group_scan(ws, words_per_chunk);
    if cur.len() == 0 {
        assert(done.flatten() + cur =~= done.flatten());
    }
}

proof fn lemma_split_chunk_flatten(ws: Seq<Word>, threshold: nat, use_punctuation: bool, depth: nat)
    ensures
        split_chunk(ws, threshold, use_punctuation, depth).flatten() == ws,
    decreases MAX_SPLIT_DEPTH - depth,
{
    broadcast use Seq::lemma_flatten_singleton;

    if depth >= MAX_SPLIT_DEPTH || ws.len() < threshold {
    } else {
        match split_point(ws, use_punctuation) {
            Some(pos) => {
                lemma_split_chunk_flatten(ws.take(pos), threshold, use_punctuation, depth + 1);
                lemma_split_chunk_flatten(ws.skip(pos), threshold, use_punctuation, depth + 1);
                lemma_flatten_concat(
                    split_chunk(ws.take(pos), threshold, use_punctuation, depth + 1),
                    split_chunk(ws.skip(pos), threshold, use_punctuation, depth + 1),
                );
                assert(ws.take(pos) + ws.skip(pos) =~= ws);
            },
            None => {},
        }
    }
}

proof fn lemma_split_all_flatten(cs: Seq<Seq<Word>>, threshold: nat)
    ensures
        split_all(cs, threshold).flatten() == cs.flatten(),
    decreases cs.len(),
{
    broadcast use Seq::lemma_flatten_push;

    if cs.len() > 0 {
        lemma_split_all_flatten(cs.drop_last(), threshold);
        let piece = split_chunk(cs.last(), threshold, cs.len() - 1 < 2, 0);
        lemma_split_chunk_flatten(cs.last(), threshold, cs.len() - 1 < 2, 0);
        lemma_flatten_concat(split_all(cs.drop_last(), threshold), piece);
        assert(cs =~= cs.drop_last().push(cs.last()));
    }
}

proof fn lemma_carry_at_flatten(cs: Seq<Seq<Word>>, i: int)
    requires
        0 <= i < cs.len() - 1,
    ensures
        carry_at(cs, i).flatten() == cs.flatten(),
        carry_at(cs, i).len() == cs.len(),
{
    let cur = cs[i];
    if cur.len() > 1 && breaks_before(cur.last()) {
        let a = cs.take(i);
        let b = cs.skip(i + 2);
        let x = cur.drop_last();
        let y = seq![cur.last()] + cs[i + 1];
        assert(cs =~= a + seq![cur, cs[i + 1]] + b);
        assert(carry_at(cs, i) =~= a + seq![x, y] + b);
        lemma_flatten_concat(a + seq![cur, cs[i + 1]], b);
        lemma_flatten_concat(a, seq![cur, cs[i + 1]]);
        lemma_flatten_concat(a + seq![x, y], b);
        lemma_flatten_concat(a, seq![x, y]);
        lemma_flatten_concat(seq![cur], seq![cs[i + 1]]);
        lemma_flatten_concat(seq![x], seq![y]);
        assert(seq![cur, cs[i + 1]] =~= seq![cur] + seq![cs[i + 1]]);
        assert(seq![x, y] =~= seq![x] + seq![y]);
        seq![cur].lemma_flatten_one_element();
        seq![cs[i + 1]].lemma_flatten_one_element();
        seq![x].lemma_flatten_one_element();
        seq![y].lemma_flatten_one_element();
        assert(x + y =~= cur + cs[i + 1]);
    }
}

proof fn lemma_carry_upto_flatten(cs: Seq<Seq<Word>>, n: nat)
    requires
        n < cs.len(),
    ensures
        carry_upto(cs, n).flatten() == cs.flatten(),
        carry_upto(cs, n).len() == cs.len(),
    decreases n,
{
    if n > 0 {
        lemma_carry_upto_flatten(cs, (n - 1) as nat);
        lemma_carry_at_flatten(carry_upto(cs, (n - 1) as nat), n - 1);
    }
}

proof fn lemma_chunk_words_flatten(text: Seq<char>, words_per_chunk: nat)
    ensures
        speech_chunk_words(text, words_per_chunk).flatten() == split_words(text),
{
    let groups = group_words_spec(split_words(text), words_per_chunk);
    lemma_group_flatten(split_words(text), words_per_chunk);
    lemma_split_all_flatten(groups, SPLIT_THRESHOLD as nat);
    let pieces = split_all(groups, SPLIT_THRESHOLD as nat);
    if pieces.len() > 0 {
        lemma_carry_upto_flatten(pieces, (pieces.len() - 1) as nat);
    }
}

proof fn lemma_join_concat(a: Seq<Word>, b: Seq<Word>)
    requires
        a.len() > 0,
        b.len() > 0,
    ensures
        join(a + b) == join(a) + seq![' '] + join(b),
    decreases b.len(),
{
    if b.len() == 1 {
        assert((a + b).drop_last() =~= a);
    } else {
        lemma_join_concat(a, b.drop_last());
        assert((a + b).drop_last() =~= a + b.drop_last());
        assert(join(a + b) =~= join(a) + seq![' '] + join(b));
    }
}

/// Joining the joined chunks is joining all their words.
proof fn lemma_join_chunks(cs: Seq<Seq<Word>>)
    requires
        forall|i: int| 0 <= i < cs.len() ==> #[trigger] cs[i].len() > 0,
    ensures
        join(cs.map_values(|c: Seq<Word>| join(c))) == join(cs.flatten()),
        cs.len() > 0 ==> cs.flatten().len() > 0,
    decreases cs.len(),
{
    broadcast use Seq::lemma_flatten_push;

    if cs.len() == 0 {
        assert(cs.flatten() =~= Seq::<Word>::empty());
    } else {
        let init = cs.drop_last();
        lemma_join_chunks(init);
        assert(cs =~= init.push(cs.last()));
        assert(cs.flatten() == init.flatten() + cs.last());
        let m = cs.map_values(|c: Seq<Word>| join(c));
        assert(m.drop_last() =~= init.map_values(|c: Seq<Word>| join(c)));
        if init.len() == 0 {
            assert(init.flatten() =~= Seq::<Word>::empty());
            assert(cs.flatten() =~= cs.last());
        } else {
            lemma_join_concat(init.flatten(), cs.last());
        }
    }
}

proof fn lemma_join_starts_with_word(ws: Seq<Word>)
    requires
        ws.len() > 0,
        ws[0].len() > 0,
    ensures
        join(ws).len() > 0,
        join(ws)[0] == ws[0][0],
    decreases ws.len(),
{
    if ws.len() > 1 {
        lemma_join_starts_with_word(ws.drop_last());
    }
}

/// Whitespace only, or nothing at all.
pub open spec fn is_blank(s: Seq<char>) -> bool {
    forall|k: int| 0 <= k < s.len() ==> is_ws(#[trigger] s[k])
}

proof fn lemma_scan_blank(s: Seq<char>)
    ensures
        (scan_words(s).0.len() == 0 && scan_words(s).1.len() == 0) == is_blank(s),
    decreases s.len(),
{
    if s.len() > 0 {
        let init = s.drop_last();
        lemma_scan_blank(init);
        if is_blank(s) {
            assert forall|k: int| 0 <= k < init.len() implies is_ws(#[trigger] init[k]) by {
                assert(init[k] == s[k]);
            }
        } else if is_blank(init) && is_ws(s.last()) {
            assert forall|k: int| 0 <= k < s.len() implies is_ws(#[trigger] s[k]) by {
                if k < init.len() {
                    assert(init[k] == s[k]);
                }
            }
        }
    }
}

/// Words joined with single spaces.
fn join_words(words: &Vec<String>) -> (r: String)
    ensures
        r@ == join(words_view(words@)),
{
    let ghost ws = words_view(words@);
    let mut out = String::new();
    let mut i: usize = 0;
    while i < words.len()
        invariant
            ws == words_view(words@),
            i <= words@.len(),
            out@ == join(ws.take(i as int)),
        decreases words@.len() - i,
    {
        proof {
            reveal_strlit(" ");
            assert(ws.take(i + 1).drop_last() =~= ws.take(i as int));
        }
        if i > 0 {
            out.append(" ");
        }
        out.append(words[i].as_str());
        proof {
            if i == 0 {
                assert(out@ =~= ws.take(1)[0]);
            } else {
                assert(out@ =~= join(ws.take(i as int)) + seq![' '] + ws[i as int]);
            }
        }
        i += 1;
    }
    assert(ws.take(words@.len() as int) =~= ws);
    out
}

/// Splits `text` into phrase-sized chunks: a primary split at sentence
/// punctuation, numbered items and (after `words_per_chunk` words) commas; a
/// recursive split of long chunks near their middle; then trailing break words
/// move to the next chunk.
pub fn split_text_into_speech_chunks(text: &str, words_per_chunk: usize) -> (r: Vec<String>)
    ensures
        strings_view(r@) == speech_chunks(text@, words_per_chunk as nat),
        proper_chunks(speech_chunk_words(text@, words_per_chunk as nat)),
        join(strings_view(r@)) == normalize_whitespace(text@),
        forall|i: int| 0 <= i < r@.len() ==> #[trigger] r@[i]@.len() > 0 && !is_ws(r@[i]@[0]),
        (r@.len() == 0) == is_blank(text@),
{
    let words = split_whitespace(text);
    let groups = group_words(&words, words_per_chunk);
    let mut chunks = split_all_chunks(&groups);
    carry_trailing_break_words(&mut chunks);
    let ghost cs = chunks_view(chunks@);
    let mut out: Vec<String> = Vec::new();
    let mut i: usize = 0;
    while i < chunks.len()
        invariant
            cs == chunks_view(chunks@),
            i <= chunks@.len(),
            strings_view(out@) == cs.take(i as int).map_values(|c: Seq<Word>| join(c)),
        decreases chunks@.len() - i,
    {
        let joined = join_words(&chunks[i]);
        let ghost before = out@;
        out.push(joined);
        proof {
            assert(strings_view(out@) =~= strings_view(before).push(joined@));
            assert(cs.take(i + 1).map_values(|c: Seq<Word>| join(c)) =~= cs.take(
                i as int,
            ).map_values(|c: Seq<Word>| join(c)).push(join(cs[i as int])));
        }
        i += 1;
    }
    assert(cs.take(chunks@.len() as int) =~= cs);
    proof {
        lemma_chunk_words_flatten(text@, words_per_chunk as nat);
        lemma_join_chunks(cs);
        lemma_scan_blank(text@);
        assert forall|i: int| 0 <= i < out@.len() implies #[trigger] out@[i]@.len() > 0 && !is_ws(
            out@[i]@[0],
        ) by {
            assert(strings_view(out@)[i] == join(cs[i]));
            assert(cs[i].len() > 0);
            assert(is_word(cs[i][0]));
            lemma_join_starts_with_word(cs[i]);
        }
    }
    out
}

/// The chunks to synthesize for `text`, one synthesis call each. Blank text
/// gives no chunks; any other text at least one.
pub fn chunk_text(text: &str) -> (r: Vec<String>)
    ensures
        strings_view(r@) == speech_chunks(text@, WORDS_PER_CHUNK as nat),
        join(strings_view(r@)) == normalize_whitespace(text@),
        forall|i: int| 0 <= i < r@.len() ==> #[trigger] r@[i]@.len() > 0 && !is_ws(r@[i]@[0]),
        (r@.len() == 0) == is_blank(text@),
{
    split_text_into_speech_chunks(text, WORDS_PER_CHUNK)
}

} // verus!
