//! Chapters of a book: their names, their place in the spine and the progress through them.
use vstd::prelude::*;
use vstd::string::*;
use vstd::utf8::{decode_utf8, encode_utf8, valid_utf8};

use crate::main_app::state::TocDestination;
use crate::paths;
use crate::text;
use crate::text::{
    begins, decimal, ends, index_from, is_space, join, join_texts, latin1, lowercased, occurs,
    parsed_uint, trimmed_start,
};

verus! {

// ---------------------------------------------------------------------------------------------
// Progress
// ---------------------------------------------------------------------------------------------
/// The sum of the first `n` counts.
pub open spec fn sum_of(counts: Seq<usize>, n: nat) -> nat
    decreases n,
{
    if n == 0 || n > counts.len() {
        0
    } else {
        sum_of(counts, (n - 1) as nat) + counts[n - 1] as nat
    }
}

/// How many nodes the chapters of a book have.
pub struct ChapterNodeCounts {
    pub counts: Vec<usize>,
    pub total: usize,
}

/// How far into a book the reader is, in nodes.
#[derive(Clone, Copy, PartialEq, Eq, Structural)]
pub struct BookProgress {
    pub done: usize,
    pub total: usize,
}

/// The nodes of a book up to a place in it.
pub open spec fn nodes_done(counts: Seq<usize>, chapter: usize, node: usize) -> nat {
    if chapter < counts.len() {
        sum_of(counts, chapter as nat) + (if node < counts[chapter as int] {
            node as nat
        } else {
            counts[chapter as int] as nat
        })
    } else {
        sum_of(counts, counts.len())
    }
}

proof fn lemma_sum_grows(counts: Seq<usize>, n: nat, m: nat)
    requires
        n <= m <= counts.len(),
    ensures
        sum_of(counts, n) <= sum_of(counts, m),
    decreases m,
{
    if n < m {
        lemma_sum_grows(counts, n, (m - 1) as nat);
    }
}

proof fn lemma_even_sum(counts: Seq<usize>, each: usize, n: nat)
    requires
        n <= counts.len(),
        forall|i: int| 0 <= i < counts.len() ==> counts[i] == each,
    ensures
        sum_of(counts, n) == n * each,
    decreases n,
{
    if n > 0 {
        lemma_even_sum(counts, each, (n - 1) as nat);
        assert(n * each == (n - 1) * each + each) by (nonlinear_arith);
    } else {
        assert(n * each == 0) by (nonlinear_arith)
            requires
                n == 0,
        ;
    }
}

impl ChapterNodeCounts {
    /// The chapters hold no more nodes than the total.
    pub open spec fn wf(self) -> bool {
        sum_of(self.counts@, self.counts@.len()) <= self.total
    }

    /// Spreads a known total evenly over the chapters.
    pub fn from_total(total: usize, num_chapters: usize) -> (r: Self)
        ensures
            r.wf(),
            r.total == total,
            r.counts@ == Seq::new(
                num_chapters as nat,
                |i: int| (total as int / num_chapters as int) as usize,
            ),
    {
        let per_chapter: usize = if num_chapters > 0 {
            total / num_chapters
        } else {
            0
        };
        let counts = vec![per_chapter;num_chapters];
        proof {
            lemma_even_sum(counts@, per_chapter, num_chapters as nat);
            if num_chapters > 0 {
                assert(num_chapters * per_chapter <= total) by (nonlinear_arith)
                    requires
                        num_chapters > 0,
                        per_chapter == total as int / num_chapters as int,
                ;
            } else {
                assert(num_chapters * per_chapter == 0) by (nonlinear_arith)
                    requires
                        num_chapters == 0,
                ;
            }
            assert(counts@ =~= Seq::new(
                num_chapters as nat,
                |i: int| (total as int / num_chapters as int) as usize,
            ));
        }
        ChapterNodeCounts { counts, total }
    }

    /// Takes the counts of the chapters as they were found; none if their sum is out of range.
    pub fn from_counts(counts: Vec<usize>) -> (r: Option<Self>)
        ensures
            r is Some <==> sum_of(counts@, counts@.len()) <= usize::MAX,
            r matches Some(c) ==> c.wf() && c.counts@ == counts@ && c.total == sum_of(
                counts@,
                counts@.len(),
            ),
    {
        let mut total: usize = 0;
        let mut i: usize = 0;
        while i < counts.len()
            invariant
                i <= counts@.len(),
                total == sum_of(counts@, i as nat),
            decreases counts@.len() - i,
        {
            match total.checked_add(counts[i]) {
                Some(t) => {
                    total = t;
                },
                None => {
                    proof {
                        lemma_sum_grows(counts@, (i + 1) as nat, counts@.len());
                    }
                    return None;
                },
            }
            i += 1;
        }
        Some(ChapterNodeCounts { counts, total })
    }

    /// How far a node of a chapter is into the book.
    pub fn progress(&self, chapter: usize, node: usize) -> (r: BookProgress)
        requires
            self.wf(),
        ensures
            r.done == nodes_done(self.counts@, chapter, node),
            r.total == self.total,
            r.done <= r.total,
    {
        let mut done: usize = 0;
        let mut i: usize = 0;
        let ghost s = self.counts@;
        while i < self.counts.len() && i < chapter
            invariant
                i <= s.len(),
                i <= chapter,
                s == self.counts@,
                self.wf(),
                done == sum_of(s, i as nat),
            decreases s.len() - i,
        {
            proof {
                lemma_sum_grows(s, (i + 1) as nat, s.len());
            }
            done += self.counts[i];
            i += 1;
        }
        if chapter < self.counts.len() {
            let here = self.counts[chapter];
            proof {
                lemma_sum_grows(s, (chapter + 1) as nat, s.len());
            }
            done += if node < here {
                node
            } else {
                here
            };
        }
        BookProgress { done, total: self.total }
    }
}

/// A chapter as it was read, with the number of blocks that it came to.
pub struct ChapterText {
    pub title: Option<String>,
    pub html: String,
    pub blocks: usize,
}

/// The nodes of a chapter that count: none where it could not be read or holds no content.
pub open spec fn counted_nodes(chapter: Option<ChapterText>) -> usize {
    match chapter {
        Some(c) => if non_content(
            match c.title {
                Some(t) => Some(t@),
                None => None,
            },
            c.html@,
        ) {
            0
        } else {
            c.blocks
        },
        None => 0,
    }
}

/// The nodes of a chapter that count toward the progress.
pub fn count_chapter_nodes(chapter: &Option<ChapterText>) -> (r: usize)
    ensures
        r == counted_nodes(*chapter),
{
    match chapter {
        Some(c) => {
            if is_non_content_chapter(&c.title, c.html.as_str()) {
                0
            } else {
                c.blocks
            }
        },
        None => 0,
    }
}

/// The further into a book, the more of it is done.
pub proof fn law_progress_grows(
    counts: Seq<usize>,
    chapter: usize,
    node: usize,
    later_chapter: usize,
    later_node: usize,
)
    requires
        chapter < later_chapter || (chapter == later_chapter && node <= later_node),
    ensures
        nodes_done(counts, chapter, node) <= nodes_done(counts, later_chapter, later_node),
{
    if chapter < later_chapter && chapter < counts.len() {
        if later_chapter < counts.len() {
            lemma_sum_grows(counts, (chapter + 1) as nat, later_chapter as nat);
        } else {
            lemma_sum_grows(counts, (chapter + 1) as nat, counts.len());
        }
    }
}

// ---------------------------------------------------------------------------------------------
// Chapters without content
// ---------------------------------------------------------------------------------------------
/// How many characters of a text stand before its first white space.
pub open spec fn word_end(s: Seq<char>) -> nat
    decreases s.len(),
{
    if s.len() == 0 || is_space(s[0]) {
        0
    } else {
        1 + word_end(s.skip(1))
    }
}

/// The words of a text.
pub open spec fn words(s: Seq<char>) -> Seq<Seq<char>>
    decreases s.len(),
{
    let t = trimmed_start(s);
    if t.len() == 0 || t.len() > s.len() || word_end(t) == 0 || word_end(t) > t.len() {
        Seq::empty()
    } else {
        seq![t.take(word_end(t) as int)] + words(t.skip(word_end(t) as int))
    }
}

/// A title with single spaces between its words, in lower case.
pub open spec fn normalized_title(title: Seq<char>) -> Seq<char> {
    lowercased(join(words(title)))
}

/// Whether a title is a single word, a space and the given noun.
pub open spec fn qualified(title: Seq<char>, noun: Seq<char>) -> bool {
    let space = index_from(title, ' ', 0);
    0 < space < title.len() && title.skip(space + 1) == noun
}

/// Titles of chapters that only refer to others. An index, a glossary or a bibliography may be
/// qualified by one word; a longer title speaks of something else.
pub open spec fn backmatter(title: Seq<char>) -> bool {
    ||| qualified(title, "index"@)
    ||| qualified(title, "glossary"@)
    ||| qualified(title, "bibliography"@)
    ||| title == "index"@
    ||| title == "glossary"@
    ||| title == "bibliography"@
    ||| title == "works cited"@
    ||| title == "further reading"@
    ||| title == "list of figures"@
    ||| title == "list of tables"@
    ||| title == "list of illustrations"@
}

/// Whether the markup says that a chapter only refers to others.
pub open spec fn marked_backmatter(html: Seq<char>) -> bool {
    ||| occurs(html, "epub:type=\"index\""@)
    ||| occurs(html, "epub:type=\"glossary\""@)
    ||| occurs(html, "epub:type=\"bibliography\""@)
}

/// Whether a chapter does not count toward the progress.
pub open spec fn non_content(title: Option<Seq<char>>, html: Seq<char>) -> bool {
    marked_backmatter(html) || match title {
        Some(t) => backmatter(normalized_title(t)),
        None => false,
    }
}

proof fn lemma_word_end(s: Seq<char>)
    ensures
        word_end(s) <= s.len(),
        forall|i: int| 0 <= i < word_end(s) ==> !is_space(#[trigger] s[i]),
        word_end(s) < s.len() ==> is_space(s[word_end(s) as int]),
    decreases s.len(),
{
    if s.len() > 0 && !is_space(s[0]) {
        lemma_word_end(s.skip(1));
        assert forall|i: int| 0 <= i < word_end(s) implies !is_space(#[trigger] s[i]) by {
            if i > 0 {
                assert(s[i] == s.skip(1)[i - 1]);
            }
        }
    }
}

proof fn lemma_word_end_is(s: Seq<char>, n: int)
    requires
        0 <= n <= s.len(),
        forall|i: int| 0 <= i < n ==> !is_space(#[trigger] s[i]),
        n < s.len() ==> is_space(s[n]),
    ensures
        word_end(s) == n,
{
    lemma_word_end(s);
    if word_end(s) < n {
        assert(!is_space(s[word_end(s) as int]));
    }
    if n < word_end(s) {
        assert(!is_space(s[n]));
    }
}

/// The words of a text.
pub fn words_of(s: &Vec<char>) -> (r: Vec<String>)
    ensures
        text::texts(r@) == words(s@),
{
    let mut r: Vec<String> = Vec::new();
    let mut i: usize = 0;
    assert(s@.skip(0) =~= s@);
    assert(text::texts(r@) + words(s@) =~= words(s@));
    loop
        invariant
            i <= s@.len(),
            text::texts(r@) + words(s@.skip(i as int)) == words(s@),
        ensures
            text::texts(r@) == words(s@),
        decreases s@.len() - i,
    {
        let ghost from = i as int;
        let ghost rest = s@.skip(from);
        while i < s.len() && text::space(s[i])
            invariant
                from <= i <= s@.len(),
                rest == s@.skip(from),
                trimmed_start(rest) == trimmed_start(s@.skip(i as int)),
            decreases s@.len() - i,
        {
            assert(s@.skip(i as int)[0] == s@[i as int]);
            assert(s@.skip(i as int).skip(1) =~= s@.skip(i + 1));
            i += 1;
        }
        let ghost t = s@.skip(i as int);
        assert(trimmed_start(rest) == t) by {
            if i < s@.len() {
                assert(t[0] == s@[i as int]);
            }
        }
        if i >= s.len() {
            assert(t =~= Seq::<char>::empty());
            assert(words(rest) == Seq::<Seq<char>>::empty());
            assert(text::texts(r@) + words(rest) =~= text::texts(r@));
            break;
        }
        let start = i;
        while i < s.len() && !text::space(s[i])
            invariant
                start <= i <= s@.len(),
                forall|k: int| start <= k < i ==> !is_space(#[trigger] s@[k]),
            decreases s@.len() - i,
        {
            i += 1;
        }
        let word = text::slice(s, start, i);
        let line = text::string_of(&word);
        proof {
            assert(t[0] == s@[start as int]);
            assert forall|k: int| 0 <= k < i - start implies !is_space(#[trigger] t[k]) by {
                assert(t[k] == s@[start + k]);
            }
            if i < s@.len() {
                assert(t[i - start] == s@[i as int]);
            }
            lemma_word_end_is(t, i - start);
            assert(word@ =~= t.take(i - start));
            assert(t.skip(i - start) =~= s@.skip(i as int));
            text::lemma_texts_push(r@, line);
            assert(words(rest) == seq![line@] + words(s@.skip(i as int)));
            assert(text::texts(r@) + (seq![line@] + words(s@.skip(i as int))) =~= text::texts(
                r@,
            ).push(line@) + words(s@.skip(i as int)));
        }
        r.push(line);
    }
    r
}

/// Whether a title, already in lower case, is that of a chapter that only refers to others.
pub fn is_backmatter_title(title: &str) -> (r: bool)
    ensures
        r == backmatter(title@),
{
    let cs = text::chars_of(title);
    let space = text::index_of(&cs, ' ', 0);
    if 0 < space && space < cs.len() {
        let n: usize = cs.len();
        let rest = text::slice(&cs, space + 1, n);
        assert(rest@ =~= title@.skip(space + 1));
        let noun = text::string_of(&rest);
        if text::same(noun.as_str(), "index") || text::same(noun.as_str(), "glossary")
            || text::same(noun.as_str(), "bibliography") {
            return true;
        }
    }
    text::same(title, "index") || text::same(title, "glossary") || text::same(
        title,
        "bibliography",
    ) || text::same(title, "works cited") || text::same(title, "further reading") || text::same(
        title,
        "list of figures",
    ) || text::same(title, "list of tables") || text::same(title, "list of illustrations")
}

/// Whether a chapter is reference matter that does not count toward the progress.
pub fn is_non_content_chapter(title: &Option<String>, html: &str) -> (r: bool)
    ensures
        r == non_content(
            match title {
                Some(t) => Some(t@),
                None => None,
            },
            html@,
        ),
{
    if text::contains(html, "epub:type=\"index\"") || text::contains(
        html,
        "epub:type=\"glossary\"",
    ) || text::contains(html, "epub:type=\"bibliography\"") {
        return true;
    }
    match title {
        Some(t) => {
            let cs = text::chars_of(t.as_str());
            let parts = words_of(&cs);
            let line = join_texts(&parts);
            let normalized = text::lowercase(line.as_str());
            is_backmatter_title(normalized.as_str())
        },
        None => false,
    }
}

// ---------------------------------------------------------------------------------------------
// Percent encoding
// ---------------------------------------------------------------------------------------------
/// The value of a hexadecimal digit.
pub open spec fn hex_value(c: char) -> Option<nat> {
    if '0' <= c && c <= '9' {
        Some((c as int - '0' as int) as nat)
    } else if 'a' <= c && c <= 'f' {
        Some((c as int - 'a' as int + 10) as nat)
    } else if 'A' <= c && c <= 'F' {
        Some((c as int - 'A' as int + 10) as nat)
    } else {
        None
    }
}

/// The byte that two characters after a percent sign stand for: two hexadecimal digits.
pub open spec fn byte_of(a: char, b: char) -> Option<nat> {
    match (hex_value(a), hex_value(b)) {
        (Some(high), Some(low)) => Some(high * 16 + low),
        _ => None,
    }
}

/// Whether a text starts with a percent-encoded byte.
pub open spec fn starts_encoded(s: Seq<char>) -> bool {
    s.len() >= 3 && s[0] == '%' && byte_of(s[1], s[2]) is Some
}

/// The percent-encoded bytes that a text starts with.
pub open spec fn encoded_run(s: Seq<char>) -> Seq<u8>
    decreases s.len(),
{
    if starts_encoded(s) {
        seq![byte_of(s[1], s[2])->0 as u8] + encoded_run(s.skip(3))
    } else {
        Seq::empty()
    }
}

/// The text that encoded bytes stand for: what they are in UTF-8, or where they are not, the
/// characters of their numbers.
pub open spec fn run_text(bytes: Seq<u8>) -> Seq<char> {
    if valid_utf8(bytes) {
        decode_utf8(bytes)
    } else {
        latin1(bytes)
    }
}

/// Each encoded byte takes three characters of the text.
pub proof fn lemma_run_fits(s: Seq<char>)
    ensures
        3 * encoded_run(s).len() <= s.len(),
        starts_encoded(s) ==> encoded_run(s).len() > 0,
    decreases s.len(),
{
    if starts_encoded(s) {
        lemma_run_fits(s.skip(3));
    }
}

/// A text with each run of percent-encoded bytes replaced by the text that they stand for; a percent
/// sign that no byte follows stays, with up to two characters after it.
pub open spec fn percent_decoded(s: Seq<char>) -> Seq<char>
    decreases s.len(),
{
    if s.len() == 0 {
        Seq::empty()
    } else if starts_encoded(s) {
        proof {
            lemma_run_fits(s);
        }
        run_text(encoded_run(s)) + percent_decoded(s.skip(3 * encoded_run(s).len() as int))
    } else if s[0] != '%' {
        seq![s[0]] + percent_decoded(s.skip(1))
    } else if s.len() < 3 {
        s
    } else {
        s.take(3) + percent_decoded(s.skip(3))
    }
}

fn hex_digit(c: char) -> (r: Option<u8>)
    ensures
        match r {
            Some(d) => hex_value(c) == Some(d as nat) && d < 16,
            None => hex_value(c) is None,
        },
{
    let n = text::code(c);
    if 48 <= n && n <= 57 {
        Some((n - 48) as u8)
    } else if 97 <= n && n <= 102 {
        Some((n - 87) as u8)
    } else if 65 <= n && n <= 70 {
        Some((n - 55) as u8)
    } else {
        None
    }
}

fn encoded_byte(a: char, b: char) -> (r: Option<u8>)
    ensures
        match r {
            Some(d) => byte_of(a, b) == Some(d as nat),
            None => byte_of(a, b) is None,
        },
{
    match (hex_digit(a), hex_digit(b)) {
        (Some(high), Some(low)) => Some(high * 16 + low),
        _ => None,
    }
}

/// The percent-encoded bytes that stand from `i` on.
fn run_from(s: &Vec<char>, i: usize) -> (r: Vec<u8>)
    requires
        i <= s@.len(),
    ensures
        r@ == encoded_run(s@.skip(i as int)),
{
    let mut r: Vec<u8> = Vec::new();
    let mut k: usize = i;
    let mut more = true;
    let ghost all = encoded_run(s@.skip(i as int));
    assert(r@ + all =~= all);
    while more
        invariant
            k <= s@.len(),
            more ==> r@ + encoded_run(s@.skip(k as int)) == all,
            !more ==> r@ == all,
        decreases s@.len() - k + (if more { 1int } else { 0 }),
    {
        let ghost rest = s@.skip(k as int);
        let ghost before = r@;
        let mut found: Option<u8> = None;
        if s.len() - k >= 3 && s[k] == '%' {
            assert(rest[0] == s@[k as int] && rest[1] == s@[k + 1] && rest[2] == s@[k + 2]);
            found = encoded_byte(s[k + 1], s[k + 2]);
        } else if s.len() - k >= 3 {
            assert(rest[0] == s@[k as int]);
        }
        match found {
            Some(b) => {
                r.push(b);
                assert(rest.skip(3) =~= s@.skip(k + 3));
                assert(before + (seq![b] + encoded_run(s@.skip(k + 3))) =~= before.push(b)
                    + encoded_run(s@.skip(k + 3)));
                k += 3;
            },
            None => {
                assert(!starts_encoded(rest));
                assert(before + Seq::<u8>::empty() =~= before);
                more = false;
            },
        }
    }
    r
}

/// The text that encoded bytes stand for.
fn text_of_run(bytes: &Vec<u8>) -> (r: String)
    ensures
        r@ == run_text(bytes@),
{
    match text::utf8_text(bytes) {
        Some(s) => s,
        None => {
            let cs = text::latin1_chars(bytes);
            text::string_of(&cs)
        },
    }
}

/// Replaces percent-encoded bytes by the text that they stand for.
pub fn percent_decode(input: &str) -> (r: String)
    ensures
        r@ == percent_decoded(input@),
{
    let s = text::chars_of(input);
    let mut r = String::new();
    let mut i: usize = 0;
    assert(s@.skip(0) =~= s@);
    assert(r@ + percent_decoded(s@) =~= percent_decoded(s@));
    while i < s.len()
        invariant
            i <= s@.len(),
            r@ + percent_decoded(s@.skip(i as int)) == percent_decoded(s@),
        decreases s@.len() - i,
    {
        let ghost rest = s@.skip(i as int);
        let ghost before = r@;
        let c = s[i];
        assert(rest[0] == c);
        proof {
            lemma_run_fits(rest);
        }
        let run = run_from(&s, i);
        if run.len() > 0 {
            let n: usize = run.len();
            let line = text_of_run(&run);
            r.append(line.as_str());
            assert(starts_encoded(rest));
            assert(rest.skip(3 * n as int) =~= s@.skip(i + 3 * n));
            assert(before + (line@ + percent_decoded(s@.skip(i + 3 * n))) =~= (before + line@)
                + percent_decoded(s@.skip(i + 3 * n)));
            i += 3 * n;
        } else if c != '%' {
            r.push(c);
            assert(rest.skip(1) =~= s@.skip(i + 1));
            assert(before + (seq![c] + percent_decoded(s@.skip(i + 1))) =~= before.push(c)
                + percent_decoded(s@.skip(i + 1)));
            i += 1;
        } else if s.len() - i < 3 {
            while i < s.len()
                invariant
                    i <= s@.len(),
                    r@ + s@.skip(i as int) == percent_decoded(s@),
                decreases s@.len() - i,
            {
                let ghost now = r@;
                r.push(s[i]);
                assert(now + s@.skip(i as int) =~= now.push(s@[i as int]) + s@.skip(i + 1));
                i += 1;
            }
            assert(s@.skip(i as int) =~= Seq::<char>::empty());
        } else {
            let a = s[i + 1];
            let b = s[i + 2];
            r.push(c);
            r.push(a);
            r.push(b);
            assert(rest[1] == a && rest[2] == b);
            assert(rest.skip(3) =~= s@.skip(i + 3));
            assert(rest.take(3) =~= seq![c, a, b]);
            assert(before + (rest.take(3) + percent_decoded(s@.skip(i + 3))) =~= before.push(
                c,
            ).push(a).push(b) + percent_decoded(s@.skip(i + 3)));
            i += 3;
        }
    }
    assert(r@ + percent_decoded(s@.skip(i as int)) =~= r@);
    r
}

/// A hexadecimal digit.
pub open spec fn hex_char(n: int) -> char {
    if n < 10 {
        ('0' as int + n) as char
    } else {
        ('A' as int + n - 10) as char
    }
}

/// Bytes written as percent signs with two digits each.
pub open spec fn percent_encoded(bytes: Seq<u8>) -> Seq<char>
    decreases bytes.len(),
{
    if bytes.len() == 0 {
        Seq::empty()
    } else {
        seq!['%', hex_char(bytes[0] as int / 16), hex_char(bytes[0] as int % 16)]
            + percent_encoded(bytes.skip(1))
    }
}

proof fn lemma_run_of_encoded(bytes: Seq<u8>)
    ensures
        encoded_run(percent_encoded(bytes)) == bytes,
        percent_encoded(bytes).len() == 3 * bytes.len(),
    decreases bytes.len(),
{
    let s = percent_encoded(bytes);
    if bytes.len() > 0 {
        let b = bytes[0] as int;
        let rest = percent_encoded(bytes.skip(1));
        lemma_run_of_encoded(bytes.skip(1));
        assert(0 <= b / 16 < 16 && 0 <= b % 16 < 16 && (b / 16) * 16 + b % 16 == b);
        lemma_hex_char(b / 16);
        lemma_hex_char(b % 16);
        assert(s[0] == '%' && s[1] == hex_char(b / 16) && s[2] == hex_char(b % 16));
        assert(s.skip(3) =~= rest);
        assert(seq![bytes[0]] + bytes.skip(1) =~= bytes);
    }
}

proof fn lemma_hex_char(n: int)
    requires
        0 <= n < 16,
    ensures
        hex_value(hex_char(n)) == Some(n as nat),
{
}

/// A text whose UTF-8 bytes were percent-encoded is read back.
pub proof fn law_encoded_text_is_read_back(t: Seq<char>)
    ensures
        percent_decoded(percent_encoded(encode_utf8(t))) == t,
{
    let bytes = encode_utf8(t);
    let s = percent_encoded(bytes);
    lemma_run_of_encoded(bytes);
    vstd::utf8::encode_utf8_valid_utf8(t);
    vstd::utf8::encode_utf8_decode_utf8(t);
    if bytes.len() == 0 {
        assert(decode_utf8(bytes) =~= Seq::<char>::empty());
    } else {
        lemma_run_fits(s);
        assert(s.skip(3 * encoded_run(s).len() as int) =~= Seq::<char>::empty());
        assert(starts_encoded(s));
        assert(percent_decoded(Seq::<char>::empty()) == Seq::<char>::empty());
        assert(t + Seq::<char>::empty() =~= t);
    }
}

/// An index, a glossary or a bibliography that one word qualifies is reference matter.
pub proof fn law_qualified_titles_are_backmatter(word: Seq<char>, noun: Seq<char>)
    requires
        word.len() > 0,
        !word.contains(' '),
        noun == "index"@ || noun == "glossary"@ || noun == "bibliography"@,
    ensures
        backmatter(word + seq![' '] + noun),
{
    let title = word + seq![' '] + noun;
    text::lemma_index_from(title, ' ', 0);
    assert forall|j: int| 0 <= j < word.len() implies title[j] != ' ' by {
        assert(word.contains(word[j]));
    }
    assert(title[word.len() as int] == ' ');
    assert(title.skip(word.len() + 1int) =~= noun);
}

/// A text without a percent sign stays as it is.
pub proof fn law_plain_text_is_kept(s: Seq<char>)
    requires
        !s.contains('%'),
    ensures
        percent_decoded(s) == s,
    decreases s.len(),
{
    if s.len() > 0 {
        assert(s.contains(s[0]));
        assert forall|c: char| s.skip(1).contains(c) implies s.contains(c) by {
            let i = choose|i: int| 0 <= i < s.skip(1).len() && s.skip(1)[i] == c;
            assert(s[i + 1] == c);
        }
        law_plain_text_is_kept(s.skip(1));
        assert(seq![s[0]] + s.skip(1) =~= s);
    }
}

// ---------------------------------------------------------------------------------------------
// The spine
// ---------------------------------------------------------------------------------------------
/// The paths of the chapters in reading order; a chapter without a resource has none.
pub open spec fn spine_paths(spine: Seq<Option<String>>) -> Seq<Option<Seq<char>>> {
    spine.map_values(
        |p: Option<String>|
            match p {
                Some(s) => Some(s@),
                None => None,
            },
    )
}

/// The path of a chapter.
pub open spec fn chapter_href(spine: Seq<Option<String>>, chapter: int) -> Option<Seq<char>> {
    if 0 <= chapter < spine.len() {
        spine_paths(spine)[chapter]
    } else {
        None
    }
}

/// The path of a chapter, where it has one.
pub fn get_chapter_href(spine: &Vec<Option<String>>, chapter: usize) -> (r: Option<String>)
    ensures
        match r {
            Some(s) => chapter_href(spine@, chapter as int) == Some(s@),
            None => chapter_href(spine@, chapter as int) is None,
        },
{
    if chapter < spine.len() {
        match &spine[chapter] {
            Some(s) => Some(text::copy(s.as_str())),
            None => None,
        }
    } else {
        None
    }
}

/// The path by which a place is remembered: that of the chapter, or a name made of its number.
pub open spec fn place_href(spine: Seq<Option<String>>, chapter: usize) -> Seq<char> {
    match chapter_href(spine, chapter as int) {
        Some(s) => s,
        None => "chapter_"@ + decimal(chapter as nat),
    }
}

/// The path by which a place is remembered.
pub fn bookmark_href(spine: &Vec<Option<String>>, chapter: usize) -> (r: String)
    ensures
        r@ == place_href(spine@, chapter),
{
    match get_chapter_href(spine, chapter) {
        Some(s) => s,
        None => {
            let mut s = text::copy("chapter_");
            let n = text::decimal_of(chapter as u64);
            s.append(n.as_str());
            s
        },
    }
}

/// Whether a remembered path leads to a chapter: one of the two contains the other.
pub open spec fn href_matches(path: Option<Seq<char>>, target: Seq<char>) -> bool {
    match path {
        Some(p) => occurs(p, target) || occurs(target, p),
        None => false,
    }
}

/// The first chapter from `i` on that a remembered path leads to.
pub open spec fn chapter_by_href(spine: Seq<Option<String>>, target: Seq<char>, i: int) -> Option<
    int,
>
    decreases spine.len() - i,
{
    if i < 0 || i >= spine.len() {
        None
    } else if href_matches(spine_paths(spine)[i], target) {
        Some(i)
    } else {
        chapter_by_href(spine, target, i + 1)
    }
}

/// The first chapter that a remembered path leads to.
pub fn find_chapter_index_by_href(spine: &Vec<Option<String>>, target_href: &str) -> (r: Option<
    usize,
>)
    ensures
        match r {
            Some(i) => chapter_by_href(spine@, target_href@, 0) == Some(i as int),
            None => chapter_by_href(spine@, target_href@, 0) is None,
        },
{
    let mut i: usize = 0;
    while i < spine.len()
        invariant
            i <= spine@.len(),
            chapter_by_href(spine@, target_href@, 0) == chapter_by_href(
                spine@,
                target_href@,
                i as int,
            ),
        decreases spine@.len() - i,
    {
        if let Some(path) = &spine[i] {
            if text::contains(path.as_str(), target_href) || text::contains(
                target_href,
                path.as_str(),
            ) {
                return Some(i);
            }
        }
        i += 1;
    }
    None
}

/// The title of a book whose metadata has none: the name of its file.
pub open spec fn title_from_path(path: Seq<char>) -> Seq<char> {
    match paths::stem_of(path) {
        Some(s) => s,
        None => "book"@,
    }
}

/// The name of a book's file without its extension.
pub fn extract_book_title(file_path: &str) -> (r: String)
    ensures
        r@ == title_from_path(file_path@),
{
    let cs = text::chars_of(file_path);
    match paths::file_stem(&cs) {
        Some(s) => text::string_of(&s),
        None => text::copy("book"),
    }
}

/// A text without any repetition of `p` at its start.
pub open spec fn without_leading(s: Seq<char>, p: Seq<char>) -> Seq<char>
    decreases s.len(),
{
    if p.len() > 0 && begins(s, p) {
        without_leading(s.skip(p.len() as int), p)
    } else {
        s
    }
}

/// A text up to its first `#`.
pub open spec fn without_fragment(s: Seq<char>) -> Seq<char> {
    s.take(text::index_from(s, '#', 0))
}

/// A path in a book as it is compared: without leading steps, fragment and encoding.
pub open spec fn normalized_href(s: Seq<char>) -> Seq<char> {
    percent_decoded(
        without_fragment(
            without_leading(without_leading(without_leading(s, "../"@), "./"@), "OEBPS/"@),
        ),
    )
}

fn drop_leading(s: Vec<char>, p: &str) -> (r: Vec<char>)
    ensures
        r@ == without_leading(s@, p@),
{
    let pat = text::chars_of(p);
    let mut i: usize = 0;
    let n: usize = s.len();
    assert(s@.skip(0) =~= s@);
    if pat.len() == 0 {
        return s;
    }
    while n - i >= pat.len() && text::stands_at(&s, &pat, i)
        invariant
            i <= n,
            n == s@.len(),
            pat@ == p@,
            pat@.len() > 0,
            without_leading(s@, p@) == without_leading(s@.skip(i as int), p@),
        decreases n - i,
    {
        assert(s@.skip(i as int).subrange(0, p@.len() as int) =~= s@.subrange(
            i as int,
            i + p@.len(),
        ));
        assert(s@.skip(i as int).skip(p@.len() as int) =~= s@.skip(i + p@.len()));
        i += pat.len();
    }
    proof {
        let rest = s@.skip(i as int);
        if begins(rest, p@) {
            assert(rest.subrange(0, p@.len() as int) =~= s@.subrange(i as int, i + p@.len()));
        }
    }
    let r = text::slice(&s, i, n);
    assert(r@ =~= s@.skip(i as int));
    r
}

fn drop_fragment(s: Vec<char>) -> (r: Vec<char>)
    ensures
        r@ == without_fragment(s@),
{
    proof {
        text::lemma_index_from(s@, '#', 0);
    }
    let to = text::index_of(&s, '#', 0);
    let r = text::slice(&s, 0, to);
    assert(r@ =~= s@.take(to as int));
    r
}

/// A path in a book as it is compared.
pub fn normalize_href(href: &str) -> (r: String)
    ensures
        r@ == normalized_href(href@),
{
    let cs = text::chars_of(href);
    let cs = drop_leading(cs, "../");
    let cs = drop_leading(cs, "./");
    let cs = drop_leading(cs, "OEBPS/");
    let cs = drop_fragment(cs);
    let s = text::string_of(&cs);
    percent_decode(s.as_str())
}

/// Whether a link leads to a chapter: after normalizing, one path ends with the other.
pub open spec fn link_matches(path: Option<Seq<char>>, href: Seq<char>) -> bool {
    match path {
        Some(p) => ends(normalized_href(p), normalized_href(href)) || ends(
            normalized_href(href),
            normalized_href(p),
        ),
        None => false,
    }
}

/// The first chapter from `i` on that a link leads to.
pub open spec fn spine_index(spine: Seq<Option<String>>, href: Seq<char>, i: int) -> Option<int>
    decreases spine.len() - i,
{
    if i < 0 || i >= spine.len() {
        None
    } else if link_matches(spine_paths(spine)[i], href) {
        Some(i)
    } else {
        spine_index(spine, href, i + 1)
    }
}

/// The first chapter that a link leads to.
pub fn find_spine_index_by_href(spine: &Vec<Option<String>>, href: &str) -> (r: Option<usize>)
    ensures
        match r {
            Some(i) => spine_index(spine@, href@, 0) == Some(i as int),
            None => spine_index(spine@, href@, 0) is None,
        },
{
    let target = normalize_href(href);
    let mut i: usize = 0;
    while i < spine.len()
        invariant
            i <= spine@.len(),
            target@ == normalized_href(href@),
            spine_index(spine@, href@, 0) == spine_index(spine@, href@, i as int),
        decreases spine@.len() - i,
    {
        if let Some(path) = &spine[i] {
            let p = normalize_href(path.as_str());
            if text::ends_with(p.as_str(), target.as_str()) || text::ends_with(
                target.as_str(),
                p.as_str(),
            ) {
                return Some(i);
            }
        }
        i += 1;
    }
    None
}

/// The path of a chapter leads back to it or to an earlier chapter of the same name.
pub proof fn law_chapter_path_leads_home(spine: Seq<Option<String>>, chapter: int, i: int)
    requires
        0 <= i <= chapter < spine.len(),
        spine[chapter] is Some,
    ensures
        spine_index(spine, spine[chapter]->0@, i) matches Some(k) && i <= k <= chapter,
        chapter_by_href(spine, spine[chapter]->0@, i) matches Some(k) && i <= k <= chapter,
    decreases chapter - i,
{
    let href = spine[chapter]->0@;
    let n = normalized_href(href);
    if i == chapter {
        assert(spine_paths(spine)[i] == Some(href));
        assert(n.subrange(0, n.len() as int) =~= n);
        assert(n.subrange(n.len() - n.len(), n.len() as int) =~= n);
        assert(href.subrange(0, href.len() as int) =~= href);
        assert(text::occurs_at(href, href, 0));
    } else {
        law_chapter_path_leads_home(spine, chapter, i + 1);
    }
}

// ---------------------------------------------------------------------------------------------
// The table of contents
// ---------------------------------------------------------------------------------------------
/// An entry of the table of contents.
pub enum TocItem {
    Chapter { href: String },
    Section { section_href: Option<String>, children: Vec<TocItem> },
}

/// Whether an entry's link is to the given file.
pub open spec fn names_file(href: Seq<char>, file: Seq<char>) -> bool {
    let h = without_fragment(href);
    h == file || ends(h, seq!['/'] + file) || (file.contains('/') && ends(h, file))
}

/// The chapter of the first entry from `i` on that names a file. An entry that names it and leads
/// to no chapter ends the search among its siblings.
pub open spec fn toc_chapter(
    items: Seq<TocItem>,
    i: nat,
    file: Seq<char>,
    spine: Seq<Option<String>>,
) -> Option<int>
    decreases items, items.len() - i,
{
    if i >= items.len() {
        None
    } else {
        match items[i as int] {
            TocItem::Chapter { href } => if names_file(href@, file) {
                spine_index(spine, href@, 0)
            } else {
                toc_chapter(items, i + 1, file, spine)
            },
            TocItem::Section { section_href, children } => match section_href {
                Some(href) => if names_file(href@, file) {
                    spine_index(spine, href@, 0)
                } else {
                    match toc_chapter(children@, 0, file, spine) {
                        Some(k) => Some(k),
                        None => toc_chapter(items, i + 1, file, spine),
                    }
                },
                None => match toc_chapter(children@, 0, file, spine) {
                    Some(k) => Some(k),
                    None => toc_chapter(items, i + 1, file, spine),
                },
            },
        }
    }
}

fn is_to_file(href: &str, file: &str) -> (r: bool)
    ensures
        r == names_file(href@, file@),
{
    let cs = text::chars_of(href);
    let cs = drop_fragment(cs);
    let h = text::string_of(&cs);
    if text::same(h.as_str(), file) {
        return true;
    }
    let mut slashed = String::new();
    slashed.push('/');
    slashed.append(file);
    assert(slashed@ =~= seq!['/'] + file@);
    if text::ends_with(h.as_str(), slashed.as_str()) {
        return true;
    }
    let f = text::chars_of(file);
    let n: usize = f.len();
    let at = text::index_of(&f, '/', 0);
    proof {
        text::lemma_index_from(f@, '/', 0);
        if at < n {
            assert(f@[at as int] == '/');
            assert(f@.contains('/'));
        } else if f@.contains('/') {
            let k = choose|k: int| 0 <= k < f@.len() && f@[k] == '/';
            assert(f@[k] == '/');
        }
    }
    at < n && text::ends_with(h.as_str(), file)
}

/// The chapter of the first entry that names a file.
pub fn find_chapter_recursive(
    items: &Vec<TocItem>,
    filename: &str,
    spine: &Vec<Option<String>>,
) -> (r: Option<usize>)
    ensures
        match r {
            Some(k) => toc_chapter(items@, 0, filename@, spine@) == Some(k as int),
            None => toc_chapter(items@, 0, filename@, spine@) is None,
        },
    decreases *items,
{
    let mut i: usize = 0;
    while i < items.len()
        invariant
            i <= items@.len(),
            toc_chapter(items@, 0, filename@, spine@) == toc_chapter(
                items@,
                i as nat,
                filename@,
                spine@,
            ),
        decreases items@.len() - i,
    {
        assert(decreases_to!(*items => items@[i as int]));
        match &items[i] {
            TocItem::Chapter { href } => {
                if is_to_file(href.as_str(), filename) {
                    return find_spine_index_by_href(spine, href.as_str());
                }
            },
            TocItem::Section { section_href, children } => {
                if let Some(href) = section_href {
                    if is_to_file(href.as_str(), filename) {
                        return find_spine_index_by_href(spine, href.as_str());
                    }
                }
                if let Some(k) = find_chapter_recursive(children, filename, spine) {
                    return Some(k);
                }
            },
        }
        i += 1;
    }
    None
}

/// The chapter of a file: by the table of contents, else by the spine.
pub open spec fn chapter_of_file(
    toc: Option<Seq<TocItem>>,
    file: Seq<char>,
    spine: Seq<Option<String>>,
) -> Option<int> {
    let by_toc = match toc {
        Some(items) => toc_chapter(items, 0, file, spine),
        None => None,
    };
    match by_toc {
        Some(k) => Some(k),
        None => spine_index(spine, file, 0),
    }
}

/// The chapter of a file.
pub fn find_chapter_by_filename(
    toc: &Option<Vec<TocItem>>,
    chapter_file: &str,
    spine: &Vec<Option<String>>,
) -> (r: Option<usize>)
    ensures
        ({
            let found = chapter_of_file(
                match toc {
                    Some(items) => Some(items@),
                    None => None,
                },
                chapter_file@,
                spine@,
            );
            match r {
                Some(k) => found == Some(k as int),
                None => found is None,
            }
        }),
{
    if let Some(items) = toc {
        if let Some(k) = find_chapter_recursive(items, chapter_file, spine) {
            return Some(k);
        }
    }
    find_spine_index_by_href(spine, chapter_file)
}

// ---------------------------------------------------------------------------------------------
// Links of the table of contents
// ---------------------------------------------------------------------------------------------
/// The page that a printed number stands for: the page it was seen on, or the one before it in
/// count.
pub open spec fn page_of_printed(printed: int, seen: Option<usize>, pages: usize) -> Option<usize> {
    match seen {
        Some(p) => Some(p),
        None => if 1 <= printed <= pages {
            Some((printed - 1) as usize)
        } else {
            None
        },
    }
}

/// The number in a text that starts with `prefix`.
pub open spec fn number_after(href: Seq<char>, prefix: Seq<char>) -> Option<nat> {
    parsed_uint(href.skip(prefix.len() as int), usize::MAX as nat)
}

/// The printed number that a link asks for.
pub open spec fn printed_number(href: Seq<char>) -> Option<nat> {
    if !begins(href, "pdf:page:"@) && begins(href, "pdf:printed:"@) {
        number_after(href, "pdf:printed:"@)
    } else {
        None
    }
}

/// Where an entry of the table of contents leads. `seen` is the page on which the printed number
/// of the link was seen, and `pages` the number of pages of an open document.
pub open spec fn link_destination(
    href: Seq<char>,
    seen: Option<usize>,
    pages: Option<usize>,
    spine: Seq<Option<String>>,
) -> TocDestination {
    if begins(href, "pdf:page:"@) {
        TocDestination::PdfPage(
            match number_after(href, "pdf:page:"@) {
                Some(n) => Some(n as usize),
                None => None,
            },
        )
    } else if begins(href, "pdf:printed:"@) {
        TocDestination::PdfPage(
            match (number_after(href, "pdf:printed:"@), pages) {
                (Some(n), Some(p)) => page_of_printed(n as int, seen, p),
                _ => None,
            },
        )
    } else if begins(href, "pdf:external:"@) {
        TocDestination::External
    } else {
        TocDestination::Chapter(
            match spine_index(spine, href, 0) {
                Some(k) => Some(k as usize),
                None => None,
            },
        )
    }
}

pub(crate) fn number_behind(href: &str, prefix: &str) -> (r: Option<usize>)
    requires
        begins(href@, prefix@),
    ensures
        match r {
            Some(n) => number_after(href@, prefix@) == Some(n as nat),
            None => number_after(href@, prefix@) is None,
        },
{
    let cs = text::chars_of(href);
    let ps = text::chars_of(prefix);
    let from: usize = ps.len();
    let to: usize = cs.len();
    let rest = text::slice(&cs, from, to);
    assert(rest@ =~= href@.skip(prefix@.len() as int));
    match text::parse_uint(&rest, usize::MAX as u64) {
        Some(n) => Some(n as usize),
        None => None,
    }
}

/// The printed number that a link asks for.
pub fn printed_number_of(href: &str) -> (r: Option<usize>)
    ensures
        match r {
            Some(n) => printed_number(href@) == Some(n as nat),
            None => printed_number(href@) is None,
        },
{
    if !text::starts_with(href, "pdf:page:") && text::starts_with(href, "pdf:printed:") {
        number_behind(href, "pdf:printed:")
    } else {
        None
    }
}

/// Where an entry of the table of contents leads.
pub fn toc_destination(
    href: &str,
    seen: Option<usize>,
    pages: Option<usize>,
    spine: &Vec<Option<String>>,
) -> (r: TocDestination)
    ensures
        r == link_destination(href@, seen, pages, spine@),
{
    if text::starts_with(href, "pdf:page:") {
        TocDestination::PdfPage(number_behind(href, "pdf:page:"))
    } else if text::starts_with(href, "pdf:printed:") {
        let page = match (number_behind(href, "pdf:printed:"), pages) {
            (Some(n), Some(p)) => match seen {
                Some(at) => Some(at),
                None => if 1 <= n && n <= p {
                    Some(n - 1)
                } else {
                    None
                },
            },
            _ => None,
        };
        TocDestination::PdfPage(page)
    } else if text::starts_with(href, "pdf:external:") {
        TocDestination::External
    } else {
        TocDestination::Chapter(find_spine_index_by_href(spine, href))
    }
}

/// The link under which a page is listed leads to that page.
pub proof fn law_page_link_leads_to_its_page(page: usize, spine: Seq<Option<String>>)
    ensures
        link_destination("pdf:page:"@ + decimal(page as nat), None, None, spine)
            == TocDestination::PdfPage(Some(page)),
{
    let p = "pdf:page:"@;
    let href = p + decimal(page as nat);
    assert(href.subrange(0, p.len() as int) =~= p);
    assert(href.skip(p.len() as int) =~= decimal(page as nat));
    text::lemma_decimal_reads_back(page as nat, usize::MAX as nat);
}

} // verus!
