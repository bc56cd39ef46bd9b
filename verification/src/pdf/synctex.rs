//! SyncTeX: which place of a page a line of the source went to, and the way back.
//!
//! Positions stay the numerals that the file gives them as, in TeX's scaled points.
use std::collections::HashMap;
use vstd::prelude::*;
use vstd::string::*;
use vstd::utf8::{decode_utf8, encode_utf8, valid_utf8};

use crate::paths;
use crate::text;
use crate::text::{
    begins, decimal, ends, hex, index_from, lines, option_view, parsed_uint, split, trimmed,
    utf8_text, views,
};

verus! {

// ---------------------------------------------------------------------------------------------
// Numerals
// ---------------------------------------------------------------------------------------------
/// Whether a text is made of digits, at least one.
pub open spec fn is_digits(s: Seq<char>) -> bool {
    s.len() > 0 && text::all_digits(s)
}

/// A text without a sign at its start.
pub open spec fn unsigned(s: Seq<char>) -> Seq<char> {
    if s.len() > 0 && (s[0] == '+' || s[0] == '-') {
        s.skip(1)
    } else {
        s
    }
}

/// Where the exponent of a numeral starts: the first `e` or `E` from `i` on, or the end.
pub open spec fn exponent_from(s: Seq<char>, i: int) -> int
    decreases s.len() - i,
{
    if i < 0 || i >= s.len() || s[i] == 'e' || s[i] == 'E' {
        i
    } else {
        exponent_from(s, i + 1)
    }
}

/// Whether a text is the part of a numeral before its exponent: digits with at most one point
/// among them, and at least one digit.
pub open spec fn is_mantissa(s: Seq<char>) -> bool {
    let point = index_from(s, '.', 0);
    if point < s.len() {
        let whole = s.take(point);
        let part = s.skip(point + 1);
        text::all_digits(whole) && text::all_digits(part) && (whole.len() > 0 || part.len() > 0)
    } else {
        is_digits(s)
    }
}

/// Whether a text names a value that no digits do, in any case.
pub open spec fn is_named_value(s: Seq<char>) -> bool {
    let low = text::ascii_lowered(s);
    low == "inf"@ || low == "infinity"@ || low == "nan"@
}

/// Whether a text is a numeral: a sign, digits with a point among them, an exponent.
pub open spec fn is_numeral(s: Seq<char>) -> bool {
    let u = unsigned(s);
    let e = exponent_from(u, 0);
    ||| is_named_value(u)
    ||| (is_mantissa(u.take(e)) && (e < u.len() ==> is_digits(unsigned(u.skip(e + 1)))))
}

fn digits_only(s: &Vec<char>) -> (r: bool)
    ensures
        r == text::all_digits(s@),
{
    let mut i: usize = 0;
    while i < s.len()
        invariant
            i <= s@.len(),
            forall|k: int| 0 <= k < i ==> text::is_digit(#[trigger] s@[k]),
        decreases s@.len() - i,
    {
        let n = text::code(s[i]);
        if !(48 <= n && n <= 57) {
            assert(!text::is_digit(s@[i as int]));
            return false;
        }
        i += 1;
    }
    true
}

fn drop_sign(s: &Vec<char>) -> (r: Vec<char>)
    ensures
        r@ == unsigned(s@),
{
    let n: usize = s.len();
    let from: usize = if n > 0 && (s[0] == '+' || s[0] == '-') {
        1
    } else {
        0
    };
    let r = text::slice(s, from, n);
    assert(r@ =~= unsigned(s@));
    r
}

fn mantissa(s: &Vec<char>) -> (r: bool)
    ensures
        r == is_mantissa(s@),
{
    let n: usize = s.len();
    proof {
        text::lemma_index_from(s@, '.', 0);
    }
    let point = text::index_of(s, '.', 0);
    if point < n {
        let whole = text::slice(s, 0, point);
        let part = text::slice(s, point + 1, n);
        assert(whole@ =~= s@.take(point as int));
        assert(part@ =~= s@.skip(point + 1));
        digits_only(&whole) && digits_only(&part) && (whole.len() > 0 || part.len() > 0)
    } else {
        n > 0 && digits_only(s)
    }
}

/// Whether a text is a numeral.
pub fn numeral(s: &Vec<char>) -> (r: bool)
    ensures
        r == is_numeral(s@),
{
    let u = drop_sign(s);
    let n: usize = u.len();
    let low = text::ascii_lowercase(&u);
    let name = text::string_of(&low);
    if text::same(name.as_str(), "inf") || text::same(name.as_str(), "infinity") || text::same(
        name.as_str(),
        "nan",
    ) {
        return true;
    }
    let mut e: usize = 0;
    while e < n && u[e] != 'e' && u[e] != 'E'
        invariant
            e <= n,
            n == u@.len(),
            exponent_from(u@, 0) == exponent_from(u@, e as int),
        decreases n - e,
    {
        e += 1;
    }
    let head = text::slice(&u, 0, e);
    assert(head@ =~= u@.take(e as int));
    if !mantissa(&head) {
        return false;
    }
    if e < n {
        let tail = text::slice(&u, e + 1, n);
        assert(tail@ =~= u@.skip(e + 1));
        let digits = drop_sign(&tail);
        digits.len() > 0 && digits_only(&digits)
    } else {
        true
    }
}

// ---------------------------------------------------------------------------------------------
// Records
// ---------------------------------------------------------------------------------------------
/// A text cut at the first occurrence of a character.
pub open spec fn cut(s: Seq<char>, c: char) -> Option<(Seq<char>, Seq<char>)> {
    let i = index_from(s, c, 0);
    if i < s.len() {
        Some((s.take(i), s.skip(i + 1)))
    } else {
        None
    }
}

fn cut_at(s: &Vec<char>, c: char) -> (r: Option<(Vec<char>, Vec<char>)>)
    ensures
        match r {
            Some((a, b)) => cut(s@, c) == Some((a@, b@)),
            None => cut(s@, c) is None,
        },
{
    let n: usize = s.len();
    proof {
        text::lemma_index_from(s@, c, 0);
    }
    let i = text::index_of(s, c, 0);
    if i < n {
        let a = text::slice(s, 0, i);
        let b = text::slice(s, i + 1, n);
        assert(a@ =~= s@.take(i as int));
        assert(b@ =~= s@.skip(i + 1));
        Some((a, b))
    } else {
        None
    }
}

/// The number of a file and a line in it.
pub open spec fn link_of(s: Seq<char>) -> Option<(u32, u32)> {
    match cut(s, ',') {
        Some((a, b)) => match (parsed_uint(a, u32::MAX as nat), parsed_uint(b, u32::MAX as nat)) {
            (Some(tag), Some(line)) => Some((tag as u32, line as u32)),
            _ => None,
        },
        None => None,
    }
}

fn parse_link(s: &Vec<char>) -> (r: Option<(u32, u32)>)
    ensures
        r == link_of(s@),
{
    match cut_at(s, ',') {
        Some((a, b)) => {
            match (
                text::parse_uint(&a, u32::MAX as u64),
                text::parse_uint(&b, u32::MAX as u64),
            ) {
                (Some(tag), Some(line)) => Some((tag as u32, line as u32)),
                _ => None,
            }
        },
        None => None,
    }
}

/// A box of a page: the source that it came from, and its geometry.
#[derive(Debug)]
pub struct BoxContext {
    pub tag: u32,
    pub line: u32,
    pub h: String,
    pub v: String,
    pub width: String,
    pub height: String,
    pub depth: String,
}

/// A box of a page.
pub struct BoxView {
    pub tag: u32,
    pub line: u32,
    pub h: Seq<char>,
    pub v: Seq<char>,
    pub width: Seq<char>,
    pub height: Seq<char>,
    pub depth: Seq<char>,
}

impl View for BoxContext {
    type V = BoxView;

    open spec fn view(&self) -> BoxView {
        BoxView {
            tag: self.tag,
            line: self.line,
            h: self.h@,
            v: self.v@,
            width: self.width@,
            height: self.height@,
            depth: self.depth@,
        }
    }
}

impl BoxContext {
    fn copy(&self) -> (r: BoxContext)
        ensures
            r@ == self@,
    {
        BoxContext {
            tag: self.tag,
            line: self.line,
            h: text::copy(self.h.as_str()),
            v: text::copy(self.v.as_str()),
            width: text::copy(self.width.as_str()),
            height: text::copy(self.height.as_str()),
            depth: text::copy(self.depth.as_str()),
        }
    }
}

/// The box that a record describes: `tag,line:h,v:width,height,depth`.
pub open spec fn box_of(s: Seq<char>) -> Option<BoxView> {
    match cut(s, ':') {
        None => None,
        Some((link, rest)) => match (link_of(link), cut(rest, ':')) {
            (Some((tag, line)), Some((point, size))) => match cut(point, ',') {
                None => None,
                Some((h, v)) => {
                    let sizes = split(size, ',');
                    if is_numeral(h) && is_numeral(v) && sizes.len() >= 3 && is_numeral(sizes[0])
                        && is_numeral(sizes[1]) && is_numeral(sizes[2]) {
                        Some(
                            BoxView {
                                tag,
                                line,
                                h,
                                v,
                                width: sizes[0],
                                height: sizes[1],
                                depth: sizes[2],
                            },
                        )
                    } else {
                        None
                    }
                },
            },
            _ => None,
        },
    }
}

/// The box that a record describes.
pub fn parse_box(s: &Vec<char>) -> (r: Option<BoxContext>)
    ensures
        match r {
            Some(b) => box_of(s@) == Some(b@),
            None => box_of(s@) is None,
        },
{
    match cut_at(s, ':') {
        None => None,
        Some((link, rest)) => {
            match (parse_link(&link), cut_at(&rest, ':')) {
                (Some((tag, line)), Some((point, size))) => {
                    match cut_at(&point, ',') {
                        None => None,
                        Some((h, v)) => {
                            let sizes = text::split_chars(&size, ',');
                            assert(views(sizes@).len() == sizes@.len());
                            if !numeral(&h) || !numeral(&v) || sizes.len() < 3 {
                                return None;
                            }
                            assert(views(sizes@)[0] == sizes@[0]@);
                            assert(views(sizes@)[1] == sizes@[1]@);
                            assert(views(sizes@)[2] == sizes@[2]@);
                            if !numeral(&sizes[0]) || !numeral(&sizes[1]) || !numeral(&sizes[2]) {
                                return None;
                            }
                            Some(
                                BoxContext {
                                    tag,
                                    line,
                                    h: text::string_of(&h),
                                    v: text::string_of(&v),
                                    width: text::string_of(&sizes[0]),
                                    height: text::string_of(&sizes[1]),
                                    depth: text::string_of(&sizes[2]),
                                },
                            )
                        },
                    }
                },
                _ => None,
            }
        },
    }
}

/// A leaf of a page: the source that it came from, its place and its width.
#[derive(Debug)]
pub struct ElementData {
    pub tag: u32,
    pub line: u32,
    pub h: String,
    pub v: String,
    pub width: Option<String>,
}

/// A leaf of a page.
pub struct ElementView {
    pub tag: u32,
    pub line: u32,
    pub h: Seq<char>,
    pub v: Seq<char>,
    pub width: Option<Seq<char>>,
}

impl View for ElementData {
    type V = ElementView;

    open spec fn view(&self) -> ElementView {
        ElementView {
            tag: self.tag,
            line: self.line,
            h: self.h@,
            v: self.v@,
            width: option_view(self.width),
        }
    }
}

/// The width that stands behind a place: what comes up to the next colon, where it is a numeral.
pub open spec fn width_behind(s: Seq<char>) -> Option<Seq<char>> {
    let w = match cut(s, ':') {
        Some((first, _)) => first,
        None => s,
    };
    if is_numeral(w) {
        Some(w)
    } else {
        None
    }
}

/// The leaf that a record describes: `tag,line:h,v`, and perhaps `:width`.
pub open spec fn element_of(s: Seq<char>) -> Option<ElementView> {
    match cut(s, ':') {
        None => None,
        Some((link, rest)) => {
            let (point, width) = match cut(rest, ':') {
                Some((p, behind)) => (p, width_behind(behind)),
                None => (rest, None),
            };
            match (link_of(link), cut(point, ',')) {
                (Some((tag, line)), Some((h, v))) => if is_numeral(h) && is_numeral(v) {
                    Some(ElementView { tag, line, h, v, width })
                } else {
                    None
                },
                _ => None,
            }
        },
    }
}

fn parse_width(s: &Vec<char>) -> (r: Option<String>)
    ensures
        option_view(r) == width_behind(s@),
{
    let w = match cut_at(s, ':') {
        Some((first, _)) => first,
        None => {
            let n: usize = s.len();
            let all = text::slice(s, 0, n);
            assert(all@ =~= s@);
            all
        },
    };
    if numeral(&w) {
        Some(text::string_of(&w))
    } else {
        None
    }
}

/// The leaf that a record describes.
pub fn parse_element(s: &Vec<char>) -> (r: Option<ElementData>)
    ensures
        match r {
            Some(e) => element_of(s@) == Some(e@),
            None => element_of(s@) is None,
        },
{
    match cut_at(s, ':') {
        None => None,
        Some((link, rest)) => {
            let (point, width) = match cut_at(&rest, ':') {
                Some((p, behind)) => {
                    let w = parse_width(&behind);
                    (p, w)
                },
                None => (rest, None),
            };
            match (parse_link(&link), cut_at(&point, ',')) {
                (Some((tag, line)), Some((h, v))) => {
                    if numeral(&h) && numeral(&v) {
                        Some(
                            ElementData {
                                tag,
                                line,
                                h: text::string_of(&h),
                                v: text::string_of(&v),
                                width,
                            },
                        )
                    } else {
                        None
                    }
                },
                _ => None,
            }
        },
    }
}

// ---------------------------------------------------------------------------------------------
// Reading a file
// ---------------------------------------------------------------------------------------------
/// A place of a page that a line of the source went to.
#[derive(Debug)]
pub struct IndexEntry {
    pub tag: u32,
    pub line: u32,
    pub page: usize,
    /// The box that the place is in.
    pub place: BoxContext,
}

/// A place of a page that a line of the source went to.
pub struct IndexView {
    pub tag: u32,
    pub line: u32,
    pub page: usize,
    pub place: BoxView,
}

impl View for IndexEntry {
    type V = IndexView;

    open spec fn view(&self) -> IndexView {
        IndexView { tag: self.tag, line: self.line, page: self.page, place: self.place@ }
    }
}

/// A leaf of a page, for the way back to the source.
#[derive(Debug)]
pub struct PageElement {
    pub page: usize,
    pub element: ElementData,
    /// The box that the leaf is in.
    pub parent: Option<BoxContext>,
}

/// A leaf of a page.
pub struct PageElementView {
    pub page: usize,
    pub element: ElementView,
    pub parent: Option<BoxView>,
}

impl View for PageElement {
    type V = PageElementView;

    open spec fn view(&self) -> PageElementView {
        PageElementView {
            page: self.page,
            element: self.element@,
            parent: match self.parent {
                Some(b) => Some(b@),
                None => None,
            },
        }
    }
}

/// What was read of a file so far.
pub struct ScanView {
    /// The paths of the sources by their numbers.
    pub inputs: Map<u32, Seq<char>>,
    /// The numbers of the sources in the order in which they first came.
    pub order: Seq<u32>,
    pub index: Seq<IndexView>,
    pub elements: Seq<PageElementView>,
    pub page_count: usize,
    pub current_page: usize,
    pub in_content: bool,
    /// The boxes that are open.
    pub stack: Seq<BoxView>,
    /// Whether the end was reached.
    pub ended: bool,
}

/// The paths that a table of strings holds.
pub open spec fn path_views(m: Map<u32, String>) -> Map<u32, Seq<char>> {
    m.map_values(|s: String| s@)
}

impl ScanView {
    /// Nothing read yet.
    pub open spec fn start() -> ScanView {
        ScanView {
            inputs: Map::empty(),
            order: Seq::empty(),
            index: Seq::empty(),
            elements: Seq::empty(),
            page_count: 0,
            current_page: 0,
            in_content: false,
            stack: Seq::empty(),
            ended: false,
        }
    }

    /// A line that names a source: `tag:path`.
    pub open spec fn with_input(self, rest: Seq<char>) -> ScanView {
        match cut(rest, ':') {
            Some((tag, path)) => match parsed_uint(tag, u32::MAX as nat) {
                Some(n) => {
                    let t = n as u32;
                    ScanView {
                        inputs: self.inputs.insert(t, path),
                        order: if self.inputs.dom().contains(t) {
                            self.order
                        } else {
                            self.order.push(t)
                        },
                        ..self
                    }
                },
                None => self,
            },
            None => self,
        }
    }

    /// The start of a page: no box of the page before stays open.
    pub open spec fn with_page(self, rest: Seq<char>) -> ScanView {
        match parsed_uint(rest, usize::MAX as nat) {
            Some(n) => ScanView {
                current_page: n as usize,
                page_count: if n > self.page_count {
                    n as usize
                } else {
                    self.page_count
                },
                stack: Seq::empty(),
                ..self
            },
            None => self,
        }
    }

    /// The start of a vertical box.
    pub open spec fn with_vbox(self, rest: Seq<char>) -> ScanView {
        match box_of(rest) {
            Some(b) => ScanView { stack: self.stack.push(b), ..self },
            None => self,
        }
    }

    /// The start of a horizontal box: its own line is found in it.
    pub open spec fn with_hbox(self, rest: Seq<char>) -> ScanView {
        match box_of(rest) {
            Some(b) => ScanView {
                index: self.index.push(
                    IndexView { tag: b.tag, line: b.line, page: self.current_page, place: b },
                ),
                stack: self.stack.push(b),
                ..self
            },
            None => self,
        }
    }

    /// The end of a box.
    pub open spec fn box_closed(self) -> ScanView {
        if self.stack.len() > 0 {
            ScanView { stack: self.stack.drop_last(), ..self }
        } else {
            self
        }
    }

    /// The innermost box that is open.
    pub open spec fn parent(self) -> Option<BoxView> {
        if self.stack.len() > 0 {
            Some(self.stack.last())
        } else {
            None
        }
    }

    /// A leaf: its line is found in the box around it.
    pub open spec fn with_leaf(self, rest: Seq<char>) -> ScanView {
        match element_of(rest) {
            Some(e) => ScanView {
                index: match self.parent() {
                    Some(b) => self.index.push(
                        IndexView { tag: e.tag, line: e.line, page: self.current_page, place: b },
                    ),
                    None => self.index,
                },
                elements: self.elements.push(
                    PageElementView {
                        page: self.current_page,
                        element: e,
                        parent: self.parent(),
                    },
                ),
                ..self
            },
            None => self,
        }
    }

    /// A line of the content.
    pub open spec fn with_content(self, line: Seq<char>) -> ScanView {
        if begins(line, "Postamble:"@) {
            ScanView { ended: true, ..self }
        } else if line.len() == 0 {
            self
        } else {
            let first = line[0];
            let rest = line.skip(1);
            if first == '{' {
                self.with_page(rest)
            } else if first == '[' {
                self.with_vbox(rest)
            } else if first == '(' {
                self.with_hbox(rest)
            } else if line == seq![']'] || line == seq![')'] {
                self.box_closed()
            } else if is_leaf(first) {
                self.with_leaf(rest)
            } else {
                self
            }
        }
    }

    /// A line of the file. Sources may be named anywhere before the end.
    pub open spec fn with_line(self, line: Seq<char>) -> ScanView {
        if self.ended {
            self
        } else if begins(line, "Input:"@) {
            self.with_input(line.skip("Input:"@.len() as int))
        } else if !self.in_content {
            if line == "Content:"@ {
                ScanView { in_content: true, ..self }
            } else {
                self
            }
        } else {
            self.with_content(line)
        }
    }

    /// The first `n` lines of a file.
    pub open spec fn after(all: Seq<Seq<char>>, n: nat) -> ScanView
        decreases n,
    {
        if n == 0 || n > all.len() {
            ScanView::start()
        } else {
            ScanView::after(all, (n - 1) as nat).with_line(all[n - 1])
        }
    }
}

/// Whether a record of the given kind describes a leaf.
pub open spec fn is_leaf(c: char) -> bool {
    c == 'x' || c == 'k' || c == 'g' || c == '$' || c == 'h' || c == 'v'
}

/// A reader of a file at work.
struct Scan {
    inputs: HashMap<u32, String>,
    order: Vec<u32>,
    index: Vec<IndexEntry>,
    elements: Vec<PageElement>,
    page_count: usize,
    current_page: usize,
    in_content: bool,
    stack: Vec<BoxContext>,
    ended: bool,
}

/// The records that vectors of them hold.
pub open spec fn index_views(v: Seq<IndexEntry>) -> Seq<IndexView> {
    v.map_values(|e: IndexEntry| e@)
}

pub open spec fn element_views(v: Seq<PageElement>) -> Seq<PageElementView> {
    v.map_values(|e: PageElement| e@)
}

pub open spec fn box_views(v: Seq<BoxContext>) -> Seq<BoxView> {
    v.map_values(|b: BoxContext| b@)
}

impl View for Scan {
    type V = ScanView;

    closed spec fn view(&self) -> ScanView {
        ScanView {
            inputs: path_views(self.inputs@),
            order: self.order@,
            index: index_views(self.index@),
            elements: element_views(self.elements@),
            page_count: self.page_count,
            current_page: self.current_page,
            in_content: self.in_content,
            stack: box_views(self.stack@),
            ended: self.ended,
        }
    }
}

fn rest_of(line: &Vec<char>, from: usize) -> (r: Vec<char>)
    requires
        from <= line@.len(),
    ensures
        r@ == line@.skip(from as int),
{
    let n: usize = line.len();
    let r = text::slice(line, from, n);
    assert(r@ =~= line@.skip(from as int));
    r
}

impl Scan {
    fn new() -> (r: Scan)
        ensures
            r@ == ScanView::start(),
    {
        let r = Scan {
            inputs: HashMap::new(),
            order: Vec::new(),
            index: Vec::new(),
            elements: Vec::new(),
            page_count: 0,
            current_page: 0,
            in_content: false,
            stack: Vec::new(),
            ended: false,
        };
        proof {
            assert(r@.inputs =~= Map::empty());
            assert(r@.order =~= Seq::empty());
            assert(r@.index =~= Seq::empty());
            assert(r@.elements =~= Seq::empty());
            assert(r@.stack =~= Seq::empty());
        }
        r
    }

    fn take_input(&mut self, rest: &Vec<char>)
        ensures
            final(self)@ == old(self)@.with_input(rest@),
    {
        broadcast use vstd::std_specs::hash::group_hash_axioms;

        if let Some((tag, path)) = cut_at(rest, ':') {
            if let Some(n) = text::parse_uint(&tag, u32::MAX as u64) {
                let t = n as u32;
                let known = self.inputs.contains_key(&t);
                let s = text::string_of(&path);
                let ghost before = self.inputs@;
                if !known {
                    self.order.push(t);
                }
                self.inputs.insert(t, s);
                proof {
                    assert(path_views(before.insert(t, s)) =~= path_views(before).insert(t, path@));
                    assert(path_views(before).dom().contains(t) == before.dom().contains(t));
                    assert(self@ == old(self)@.with_input(rest@));
                }
            }
        }
    }

    fn take_page(&mut self, rest: &Vec<char>)
        ensures
            final(self)@ == old(self)@.with_page(rest@),
    {
        if let Some(n) = text::parse_uint(rest, usize::MAX as u64) {
            let p = n as usize;
            self.current_page = p;
            if p > self.page_count {
                self.page_count = p;
            }
            self.stack = Vec::new();
            assert(box_views(self.stack@) =~= Seq::empty());
        }
    }

    fn open_box(&mut self, b: BoxContext)
        ensures
            final(self)@ == (ScanView { stack: old(self)@.stack.push(b@), ..old(self)@ }),
    {
        let ghost before = self.stack@;
        self.stack.push(b);
        assert(box_views(before.push(b)) =~= box_views(before).push(b@));
    }

    fn index_place(&mut self, tag: u32, line: u32, place: BoxContext)
        ensures
            final(self)@ == (ScanView {
                index: old(self)@.index.push(
                    IndexView { tag, line, page: old(self)@.current_page, place: place@ },
                ),
                ..old(self)@
            }),
    {
        let entry = IndexEntry { tag, line, page: self.current_page, place };
        let ghost before = self.index@;
        self.index.push(entry);
        assert(index_views(before.push(entry)) =~= index_views(before).push(entry@));
    }

    fn take_vbox(&mut self, rest: &Vec<char>)
        ensures
            final(self)@ == old(self)@.with_vbox(rest@),
    {
        if let Some(b) = parse_box(rest) {
            self.open_box(b);
        }
    }

    fn take_hbox(&mut self, rest: &Vec<char>)
        ensures
            final(self)@ == old(self)@.with_hbox(rest@),
    {
        if let Some(b) = parse_box(rest) {
            let place = b.copy();
            self.index_place(b.tag, b.line, place);
            self.open_box(b);
        }
    }

    fn close_box(&mut self)
        ensures
            final(self)@ == old(self)@.box_closed(),
    {
        let ghost before = self.stack@;
        if self.stack.len() > 0 {
            self.stack.pop();
            assert(box_views(before.drop_last()) =~= box_views(before).drop_last());
        }
        assert(box_views(before).len() == before.len());
    }

    fn innermost(&self) -> (r: Option<BoxContext>)
        ensures
            match r {
                Some(b) => self@.parent() == Some(b@),
                None => self@.parent() is None,
            },
    {
        let n: usize = self.stack.len();
        assert(self@.stack.len() == n);
        if n > 0 {
            assert(self@.stack[n - 1] == self.stack@[n - 1]@);
            Some(self.stack[n - 1].copy())
        } else {
            None
        }
    }

    fn take_leaf(&mut self, rest: &Vec<char>)
        ensures
            final(self)@ == old(self)@.with_leaf(rest@),
    {
        if let Some(element) = parse_element(rest) {
            if let Some(b) = self.innermost() {
                self.index_place(element.tag, element.line, b);
            }
            let parent = self.innermost();
            let item = PageElement { page: self.current_page, element, parent };
            let ghost before = self.elements@;
            self.elements.push(item);
            proof {
                assert(element_views(before.push(item)) =~= element_views(before).push(item@));
                assert(self@ == old(self)@.with_leaf(rest@));
            }
        }
    }

    fn take_content(&mut self, line: &Vec<char>)
        ensures
            final(self)@ == old(self)@.with_content(line@),
    {
        let s = text::string_of(line);
        if text::starts_with(s.as_str(), "Postamble:") {
            self.ended = true;
            return ;
        }
        let n: usize = line.len();
        if n == 0 {
            return ;
        }
        let first = line[0];
        let rest = rest_of(line, 1);
        proof {
            assert((line@ =~= seq![']']) == (n == 1 && first == ']')) by {
                assert(seq![']'].len() == 1 && seq![']'][0] == ']');
            }
            assert((line@ =~= seq![')']) == (n == 1 && first == ')')) by {
                assert(seq![')'].len() == 1 && seq![')'][0] == ')');
            }
        }
        if first == '{' {
            self.take_page(&rest);
        } else if first == '[' {
            self.take_vbox(&rest);
        } else if first == '(' {
            self.take_hbox(&rest);
        } else if n == 1 && (first == ']' || first == ')') {
            self.close_box();
        } else if first == 'x' || first == 'k' || first == 'g' || first == '$' || first == 'h'
            || first == 'v' {
            self.take_leaf(&rest);
        }
    }

    fn take_line(&mut self, line: &Vec<char>)
        ensures
            final(self)@ == old(self)@.with_line(line@),
    {
        if self.ended {
            return ;
        }
        let s = text::string_of(line);
        if text::starts_with(s.as_str(), "Input:") {
            let p = text::chars_of("Input:");
            let from: usize = p.len();
            let rest = rest_of(line, from);
            self.take_input(&rest);
        } else if !self.in_content {
            if text::same(s.as_str(), "Content:") {
                self.in_content = true;
            }
        } else {
            self.take_content(line);
        }
    }
}

// ---------------------------------------------------------------------------------------------
// The scanner
// ---------------------------------------------------------------------------------------------
/// What a file says, ready for queries both ways.
pub struct SyncTexScanner {
    inputs: HashMap<u32, String>,
    order: Vec<u32>,
    index: Vec<IndexEntry>,
    page_elements: Vec<PageElement>,
    page_count: usize,
}

/// What a file says.
pub struct ScannerView {
    pub inputs: Map<u32, Seq<char>>,
    pub order: Seq<u32>,
    pub index: Seq<IndexView>,
    pub elements: Seq<PageElementView>,
    pub page_count: usize,
}

impl View for SyncTexScanner {
    type V = ScannerView;

    closed spec fn view(&self) -> ScannerView {
        ScannerView {
            inputs: path_views(self.inputs@),
            order: self.order@,
            index: index_views(self.index@),
            elements: element_views(self.page_elements@),
            page_count: self.page_count,
        }
    }
}

/// What a text says.
pub open spec fn scanned(content: Seq<char>) -> ScannerView {
    let s = ScanView::after(lines(content), lines(content).len());
    ScannerView {
        inputs: s.inputs,
        order: s.order,
        index: s.index,
        elements: s.elements,
        page_count: s.page_count,
    }
}

/// Why a file cannot be read.
#[derive(Clone, Copy, Debug, PartialEq, Eq, Structural)]
pub enum SyncTexError {
    /// It is no compressed text.
    Decompress,
    /// It is no text.
    Read,
}

/// The wording of an error.
pub open spec fn error_text(e: SyncTexError, path: Seq<char>) -> Seq<char> {
    match e {
        SyncTexError::Decompress => "Failed to decompress synctex file: "@ + path,
        SyncTexError::Read => "Failed to read synctex file: "@ + path,
    }
}

impl SyncTexError {
    /// The wording of the error.
    pub fn message(&self, path: &str) -> (r: String)
        ensures
            r@ == error_text(*self, path@),
    {
        let mut s = match self {
            SyncTexError::Decompress => text::copy("Failed to decompress synctex file: "),
            SyncTexError::Read => text::copy("Failed to read synctex file: "),
        };
        s.append(path);
        s
    }
}

/// The text that compressed bytes hold; none where they hold none.
pub uninterp spec fn gunzipped(bytes: Seq<u8>) -> Option<Seq<char>>;

/// `flate2::read::GzDecoder`, read to its end as a string, gives the text that bytes in the gzip
/// format hold, and fails on others and on what is no UTF-8. The format itself is only named here.
#[verifier::external_body]
fn gunzip_text(bytes: &[u8]) -> (r: Option<String>)
    ensures
        option_view(r) == gunzipped(bytes@),
{
    let mut content = String::new();
    let mut decoder = flate2::read::GzDecoder::new(bytes);
    std::io::Read::read_to_string(&mut decoder, &mut content).ok()?;
    Some(content)
}

/// The text of a file: compressed where its name says so.
pub open spec fn file_text(path: Seq<char>, bytes: Seq<u8>) -> Result<Seq<char>, SyncTexError> {
    if ends(path, ".synctex.gz"@) {
        match gunzipped(bytes) {
            Some(t) => Ok(t),
            None => Err(SyncTexError::Decompress),
        }
    } else if valid_utf8(bytes) {
        Ok(decode_utf8(bytes))
    } else {
        Err(SyncTexError::Read)
    }
}

/// The first tag from `i` on whose path a query names.
pub open spec fn tag_by_path(
    order: Seq<u32>,
    inputs: Map<u32, Seq<char>>,
    file: Seq<char>,
    i: int,
) -> Option<u32>
    decreases order.len() - i,
{
    if i < 0 || i >= order.len() {
        None
    } else if names_path(inputs[order[i]], file) {
        Some(order[i])
    } else {
        tag_by_path(order, inputs, file, i + 1)
    }
}

/// The last of the first `n` tags whose path has the given file name.
pub open spec fn tag_by_name(
    order: Seq<u32>,
    inputs: Map<u32, Seq<char>>,
    name: Seq<char>,
    n: nat,
) -> Option<u32>
    decreases n,
{
    if n == 0 || n > order.len() {
        None
    } else if base_name(inputs[order[n - 1]]) == name {
        Some(order[n - 1])
    } else {
        tag_by_name(order, inputs, name, (n - 1) as nat)
    }
}

/// The file name of a path, or the path where it has none.
pub open spec fn base_name(path: Seq<char>) -> Seq<char> {
    match paths::name_of(path) {
        Some(n) => n,
        None => path,
    }
}

/// Whether a path is the given one, or ends with it behind a `/`.
pub open spec fn leads_to(path: Seq<char>, file: Seq<char>) -> bool {
    path == file || ends(path, seq!['/'] + file)
}

/// Whether a query names a source: its path ends with the components of the query, as they are or
/// without detours.
pub open spec fn names_path(path: Seq<char>, file: Seq<char>) -> bool {
    leads_to(path, file) || leads_to(normalized(path), normalized(file))
}

/// The first `n` components without detours: `.` goes, and `..` takes away what came before it. Above
/// the first component there is nothing to take away.
pub open spec fn resolved(parts: Seq<Seq<char>>, n: nat) -> Seq<Seq<char>>
    decreases n,
{
    if n == 0 || n > parts.len() {
        Seq::empty()
    } else {
        let before = resolved(parts, (n - 1) as nat);
        let part = parts[n - 1];
        if part == seq!['.'] {
            before
        } else if part == seq!['.', '.'] {
            if before.len() > 0 {
                before.drop_last()
            } else {
                before
            }
        } else {
            before.push(part)
        }
    }
}

/// Components with a `/` between them.
pub open spec fn slashed(parts: Seq<Seq<char>>) -> Seq<char>
    decreases parts.len(),
{
    if parts.len() == 0 {
        Seq::empty()
    } else if parts.len() == 1 {
        parts[0]
    } else {
        slashed(parts.drop_last()) + seq!['/'] + parts.last()
    }
}

/// The components of a path without detours.
pub open spec fn direct(s: Seq<char>) -> Seq<Seq<char>> {
    resolved(paths::components(s), paths::components(s).len())
}

/// A path without detours; one that starts at the root still does.
pub open spec fn normalized(s: Seq<char>) -> Seq<char> {
    if paths::is_rooted(s) {
        seq!['/'] + slashed(direct(s))
    } else {
        slashed(direct(s))
    }
}

/// Whether every number of a source is listed once, and no other is.
pub open spec fn listed(order: Seq<u32>, inputs: Map<u32, Seq<char>>) -> bool {
    &&& order.no_duplicates()
    &&& forall|i: int| 0 <= i < order.len() ==> inputs.dom().contains(#[trigger] order[i])
    &&& forall|t: u32| inputs.dom().contains(t) ==> #[trigger] order.contains(t)
}

/// The tag of the source that a query names: by its path, else by its file name.
pub open spec fn tag_of(s: ScannerView, file: Seq<char>) -> Option<u32> {
    match tag_by_path(s.order, s.inputs, file, 0) {
        Some(t) => Some(t),
        None => tag_by_name(s.order, s.inputs, base_name(file), s.order.len()),
    }
}

/// The first entry from `i` on for a line of a source.
pub open spec fn entry_from(index: Seq<IndexView>, tag: u32, line: u32, i: int) -> Option<IndexView>
    decreases index.len() - i,
{
    if i < 0 || i >= index.len() {
        None
    } else if index[i].tag == tag && index[i].line == line {
        Some(index[i])
    } else {
        entry_from(index, tag, line, i + 1)
    }
}

/// The lines that are tried for a line: itself, then those around it.
pub open spec fn nearby(line: u32, k: int) -> u32 {
    let offset = if k == 0 {
        0int
    } else if k == 1 {
        1
    } else if k == 2 {
        -1
    } else if k == 3 {
        2
    } else if k == 4 {
        -2
    } else if k == 5 {
        3
    } else {
        -3
    };
    ((line + offset) % 0x1_0000_0000) as u32
}

/// The first entry for one of the lines that are tried, from the `k`-th on.
pub open spec fn forward_from(index: Seq<IndexView>, tag: u32, line: u32, k: int) -> Option<
    IndexView,
>
    decreases 7 - k,
{
    if k < 0 || k >= 7 {
        None
    } else {
        match entry_from(index, tag, nearby(line, k), 0) {
            Some(e) => Some(e),
            None => forward_from(index, tag, line, k + 1),
        }
    }
}

/// The place of a page that a line of a source went to.
#[derive(Debug)]
pub struct ForwardResult {
    /// The page, counted from one.
    pub page: usize,
    /// The box around the place.
    pub place: BoxContext,
}

/// The place of a source that a place of a page came from.
#[derive(Debug)]
pub struct InverseResult {
    pub file: String,
    pub line: u32,
}

/// How far a leaf is from a place, by a number that grows with the distance; one that cannot be
/// compared is neither nearer nor farther than any other.
#[derive(Clone, Copy, Debug, PartialEq, Eq, Structural)]
pub struct Distance {
    pub comparable: bool,
    pub order: u64,
}

/// Whether one distance is less than another.
pub open spec fn nearer(a: Distance, b: Distance) -> bool {
    a.comparable && b.comparable && a.order < b.order
}

/// The leaf of a page that is nearest, among the first `n`: the first of those that none comes
/// nearer than. A leaf without a distance does not count.
pub open spec fn nearest(
    elements: Seq<PageElementView>,
    distances: Seq<Option<Distance>>,
    page: usize,
    n: nat,
) -> Option<int>
    decreases n,
{
    if n == 0 || n > elements.len() || n > distances.len() {
        None
    } else {
        let before = nearest(elements, distances, page, (n - 1) as nat);
        if elements[n - 1].page == page && distances[n - 1] is Some && (before is None || nearer(
            distances[n - 1]->0,
            distances[before->0]->0,
        )) {
            Some(n - 1)
        } else {
            before
        }
    }
}

fn base_name_of(path: &str) -> (r: String)
    ensures
        r@ == base_name(path@),
{
    let cs = text::chars_of(path);
    match paths::file_name(&cs) {
        Some(n) => text::string_of(&n),
        None => text::copy(path),
    }
}

/// A path without detours, found without looking at any file.
pub fn normalize_path_str(s: &str) -> (r: String)
    ensures
        r@ == normalized(s@),
{
    let cs = text::chars_of(s);
    let parts = paths::components_of(&cs);
    let ghost all = paths::components(s@);
    let mut stack: Vec<Vec<char>> = Vec::new();
    let mut i: usize = 0;
    assert(text::views(parts@).len() == parts@.len());
    assert(text::views(stack@) =~= resolved(all, 0));
    while i < parts.len()
        invariant
            i <= parts@.len(),
            text::views(parts@) == all,
            all.len() == parts@.len(),
            text::views(stack@) == resolved(all, i as nat),
        decreases parts@.len() - i,
    {
        let ghost before = stack@;
        assert(all[i as int] == parts@[i as int]@);
        assert(text::views(before).len() == before.len());
        let part = &parts[i];
        let one = part.len() == 1 && part[0] == '.';
        let two = part.len() == 2 && part[0] == '.' && part[1] == '.';
        proof {
            assert(one == (part@ =~= seq!['.'])) by {
                assert(seq!['.'].len() == 1 && seq!['.'][0] == '.');
            }
            assert(two == (part@ =~= seq!['.', '.'])) by {
                let d = seq!['.', '.'];
                assert(d.len() == 2 && d[0] == '.' && d[1] == '.');
            }
        }
        if one {
        } else if two {
            if stack.len() > 0 {
                stack.pop();
                assert(text::views(before.drop_last()) =~= text::views(before).drop_last());
            }
        } else {
            let n: usize = part.len();
            let own = text::slice(part, 0, n);
            assert(own@ =~= part@);
            proof {
                text::lemma_views_push(before, own);
            }
            stack.push(own);
        }
        i += 1;
    }
    let ghost kept = direct(s@);
    let mut body = String::new();
    let mut j: usize = 0;
    assert(body@ =~= slashed(kept.take(0)));
    assert(text::views(stack@).len() == stack@.len());
    while j < stack.len()
        invariant
            j <= stack@.len(),
            text::views(stack@) == kept,
            kept.len() == stack@.len(),
            body@ == slashed(kept.take(j as int)),
        decreases stack@.len() - j,
    {
        assert(kept[j as int] == stack@[j as int]@);
        assert(kept.take(j + 1).drop_last() =~= kept.take(j as int));
        if j > 0 {
            body.push('/');
        }
        let part = text::string_of(&stack[j]);
        body.append(part.as_str());
        assert(body@ =~= slashed(kept.take(j + 1)));
        j += 1;
    }
    assert(kept.take(kept.len() as int) =~= kept);
    if cs.len() > 0 && cs[0] == '/' {
        let mut r = text::copy("/");
        proof {
            reveal_strlit("/");
        }
        r.append(body.as_str());
        assert(r@ =~= seq!['/'] + slashed(kept));
        r
    } else {
        body
    }
}

/// Whether a path is the given one, or ends with it behind a `/`.
fn path_leads_to(path: &str, file: &str) -> (r: bool)
    ensures
        r == leads_to(path@, file@),
{
    let mut behind = text::copy("/");
    proof {
        reveal_strlit("/");
    }
    behind.append(file);
    assert(behind@ =~= seq!['/'] + file@);
    text::same(path, file) || text::ends_with(path, behind.as_str())
}

impl SyncTexScanner {
    /// Every number of a source is listed once, and has a path.
    pub open spec fn wf(self) -> bool {
        listed(self@.order, self@.inputs)
    }

    /// Reads a file that was loaded from a path; one whose name ends in `.synctex.gz` is
    /// compressed.
    pub fn open(path: &str, bytes: &[u8]) -> (r: Result<Self, SyncTexError>)
        ensures
            match r {
                Ok(s) => s.wf() && (file_text(path@, bytes@) matches Ok(t) && s@ == scanned(t)),
                Err(e) => file_text(path@, bytes@) == Err::<Seq<char>, SyncTexError>(e),
            },
    {
        if text::ends_with(path, ".synctex.gz") {
            match gunzip_text(bytes) {
                Some(t) => Self::parse(t.as_str()),
                None => Err(SyncTexError::Decompress),
            }
        } else {
            match utf8_text(bytes) {
                Some(t) => Self::parse(t.as_str()),
                None => Err(SyncTexError::Read),
            }
        }
    }

    /// Reads the text of a file. Lines that say nothing are passed over.
    pub fn parse(content: &str) -> (r: Result<Self, SyncTexError>)
        ensures
            r matches Ok(s) && s.wf() && s@ == scanned(content@),
    {
        let cs = text::chars_of(content);
        let all = text::lines_of(&cs);
        let ghost ls = lines(content@);
        assert(views(all@).len() == all@.len());
        let mut scan = Scan::new();
        let mut i: usize = 0;
        while i < all.len()
            invariant
                i <= all@.len(),
                views(all@) == ls,
                ls.len() == all@.len(),
                scan@ == ScanView::after(ls, i as nat),
            decreases all@.len() - i,
        {
            assert(ls[i as int] == all@[i as int]@);
            scan.take_line(&all[i]);
            i += 1;
        }
        proof {
            lemma_inputs_are_listed(ls, ls.len());
        }
        let r = SyncTexScanner {
            inputs: scan.inputs,
            order: scan.order,
            index: scan.index,
            page_elements: scan.elements,
            page_count: scan.page_count,
        };
        assert(r@ == scanned(content@));
        Ok(r)
    }

    /// How many pages the file speaks of.
    pub fn page_count(&self) -> (r: usize)
        ensures
            r == self@.page_count,
    {
        self.page_count
    }

    /// The paths of the sources by their numbers.
    pub fn inputs(&self) -> (r: &HashMap<u32, String>)
        ensures
            path_views(r@) == self@.inputs,
    {
        &self.inputs
    }

    /// The leaves of the pages.
    pub fn page_elements(&self) -> (r: &Vec<PageElement>)
        ensures
            element_views(r@) == self@.elements,
    {
        &self.page_elements
    }

    fn path_of_tag(&self, tag: u32) -> (r: Option<&String>)
        ensures
            r is Some <==> self@.inputs.dom().contains(tag),
            r matches Some(s) ==> self@.inputs[tag] == s@,
    {
        broadcast use vstd::std_specs::hash::group_hash_axioms;

        let r = self.inputs.get(&tag);
        proof {
            assert(self@.inputs.dom().contains(tag) == self.inputs@.dom().contains(tag));
        }
        r
    }

    fn resolve_file_tag(&self, file: &str) -> (r: Option<u32>)
        requires
            self.wf(),
        ensures
            r == tag_of(self@, file@),
    {
        let query = normalize_path_str(file);
        let ghost (order, inputs) = (self@.order, self@.inputs);
        let mut i: usize = 0;
        while i < self.order.len()
            invariant
                i <= self.order@.len(),
                self.wf(),
                order == self@.order,
                order == self.order@,
                inputs == self@.inputs,
                query@ == normalized(file@),
                tag_by_path(order, inputs, file@, 0) == tag_by_path(
                    order,
                    inputs,
                    file@,
                    i as int,
                ),
            decreases self.order@.len() - i,
        {
            let tag = self.order[i];
            assert(inputs.dom().contains(order[i as int]));
            if let Some(path) = self.path_of_tag(tag) {
                if path_leads_to(path.as_str(), file) {
                    return Some(tag);
                }
                let stored = normalize_path_str(path.as_str());
                if path_leads_to(stored.as_str(), query.as_str()) {
                    return Some(tag);
                }
            }
            i += 1;
        }
        let name = base_name_of(file);
        let mut n: usize = self.order.len();
        while n > 0
            invariant
                n <= self.order@.len(),
                self.wf(),
                order == self@.order,
                order == self.order@,
                inputs == self@.inputs,
                name@ == base_name(file@),
                tag_by_path(order, inputs, file@, 0) is None,
                tag_by_name(order, inputs, name@, order.len()) == tag_by_name(
                    order,
                    inputs,
                    name@,
                    n as nat,
                ),
            decreases n,
        {
            let tag = self.order[n - 1];
            assert(inputs.dom().contains(order[n - 1]));
            if let Some(path) = self.path_of_tag(tag) {
                let own = base_name_of(path.as_str());
                if text::same(own.as_str(), name.as_str()) {
                    return Some(tag);
                }
            }
            n -= 1;
        }
        None
    }

    fn find_entry(&self, tag: u32, line: u32) -> (r: Option<usize>)
        ensures
            match r {
                Some(i) => i < self.index@.len() && entry_from(self@.index, tag, line, 0) == Some(
                    self.index@[i as int]@,
                ),
                None => entry_from(self@.index, tag, line, 0) is None,
            },
    {
        let ghost ix = self@.index;
        let mut i: usize = 0;
        while i < self.index.len()
            invariant
                i <= self.index@.len(),
                ix == index_views(self.index@),
                ix == self@.index,
                entry_from(ix, tag, line, 0) == entry_from(ix, tag, line, i as int),
            decreases self.index@.len() - i,
        {
            assert(ix[i as int] == self.index@[i as int]@);
            if self.index[i].tag == tag && self.index[i].line == line {
                return Some(i);
            }
            i += 1;
        }
        None
    }

    /// The place of a page that a line of a source went to. `file` may be a path or a file name;
    /// where the line itself went nowhere, those up to three lines away are tried.
    pub fn forward_search(&self, file: &str, line: u32, _column: u32) -> (r: Option<ForwardResult>)
        requires
            self.wf(),
        ensures
            ({
                let found = match tag_of(self@, file@) {
                    Some(tag) => forward_from(self@.index, tag, line, 0),
                    None => None,
                };
                match r {
                    Some(f) => found matches Some(e) && e.page == f.page && e.place == f.place@,
                    None => found is None,
                }
            }),
    {
        let tag = match self.resolve_file_tag(file) {
            Some(t) => t,
            None => {
                return None;
            },
        };
        let offsets: [u32; 7] = [0, 1, 0xffff_ffff, 2, 0xffff_fffe, 3, 0xffff_fffd];
        let mut k: usize = 0;
        while k < 7
            invariant
                k <= 7,
                offsets@ =~= seq![0u32, 1, 0xffff_ffff, 2, 0xffff_fffe, 3, 0xffff_fffd],
                tag_of(self@, file@) == Some(tag),
                forward_from(self@.index, tag, line, 0) == forward_from(
                    self@.index,
                    tag,
                    line,
                    k as int,
                ),
            decreases 7 - k,
        {
            let target = line.wrapping_add(offsets[k]);
            assert(target == nearby(line, k as int)) by {
                assert(offsets@[k as int] == seq![
                    0u32,
                    1,
                    0xffff_ffff,
                    2,
                    0xffff_fffe,
                    3,
                    0xffff_fffd,
                ][k as int]);
            }
            if let Some(i) = self.find_entry(tag, target) {
                let entry = &self.index[i];
                return Some(ForwardResult { page: entry.page, place: entry.place.copy() });
            }
            k += 1;
        }
        None
    }

    /// The place of a source that a place of a page came from: that of the nearest leaf of the page.
    /// `distances` says of each leaf how far it is; none of a leaf without extent.
    pub fn inverse_search(&self, page: usize, distances: &Vec<Option<Distance>>) -> (r: Option<
        InverseResult,
    >)
        requires
            distances@.len() == self@.elements.len(),
        ensures
            match nearest(self@.elements, distances@, page, self@.elements.len()) {
                Some(i) => {
                    let e = self@.elements[i].element;
                    match r {
                        Some(f) => self@.inputs.dom().contains(e.tag) && f.file@
                            == self@.inputs[e.tag] && f.line == e.line,
                        None => !self@.inputs.dom().contains(e.tag),
                    }
                },
                None => r is None,
            },
    {
        let ghost els = self@.elements;
        assert(els.len() == self.page_elements@.len());
        let mut best: Option<(usize, Distance)> = None;
        let mut i: usize = 0;
        while i < self.page_elements.len()
            invariant
                i <= self.page_elements@.len(),
                els == element_views(self.page_elements@),
                els.len() == self.page_elements@.len(),
                distances@.len() == els.len(),
                match best {
                    Some((k, d)) => k < i && distances@[k as int] == Some(d) && nearest(
                        els,
                        distances@,
                        page,
                        i as nat,
                    ) == Some(k as int),
                    None => nearest(els, distances@, page, i as nat) is None,
                },
            decreases self.page_elements@.len() - i,
        {
            assert(els[i as int] == self.page_elements@[i as int]@);
            if self.page_elements[i].page == page {
                if let Some(d) = distances[i] {
                    let better = match best {
                        Some((_, b)) => d.comparable && b.comparable && d.order < b.order,
                        None => true,
                    };
                    if better {
                        best = Some((i, d));
                    }
                }
            }
            i += 1;
        }
        match best {
            None => None,
            Some((k, _)) => {
                assert(els[k as int] == self.page_elements@[k as int]@);
                let e = &self.page_elements[k].element;
                match self.path_of_tag(e.tag) {
                    Some(path) => Some(
                        InverseResult { file: text::copy(path.as_str()), line: e.line },
                    ),
                    None => None,
                }
            },
        }
    }

    /// The file that goes with a document: the compressed one, else the plain one, of the same name
    /// in the same directory. Which of them exist is told.
    pub fn find_synctex_file(pdf_path: &str, gz_exists: bool, plain_exists: bool) -> (r: Option<
        String,
    >)
        ensures
            option_view(r) == (match sidecars(pdf_path@) {
                None => None,
                Some((gz, plain)) => if gz_exists {
                    Some(gz)
                } else if plain_exists {
                    Some(plain)
                } else {
                    None
                },
            }),
    {
        match sidecar_paths(pdf_path) {
            None => None,
            Some((gz, plain)) => if gz_exists {
                Some(gz)
            } else if plain_exists {
                Some(plain)
            } else {
                None
            },
        }
    }
}

/// The files that may go with a document, the compressed one first.
pub open spec fn sidecars(pdf_path: Seq<char>) -> Option<(Seq<char>, Seq<char>)> {
    match (paths::stem_of(pdf_path), paths::parent_of(pdf_path)) {
        (Some(stem), Some(dir)) => Some(
            (
                paths::joined(dir, stem + ".synctex.gz"@),
                paths::joined(dir, stem + ".synctex"@),
            ),
        ),
        _ => None,
    }
}

/// The files that may go with a document, the compressed one first.
pub fn sidecar_paths(pdf_path: &str) -> (r: Option<(String, String)>)
    ensures
        match r {
            Some((gz, plain)) => sidecars(pdf_path@) == Some((gz@, plain@)),
            None => sidecars(pdf_path@) is None,
        },
{
    let cs = text::chars_of(pdf_path);
    match (paths::file_stem(&cs), paths::parent(&cs)) {
        (Some(stem), Some(dir)) => {
            let d = text::string_of(&dir);
            let mut gz = text::string_of(&stem);
            gz.append(".synctex.gz");
            let mut plain = text::string_of(&stem);
            plain.append(".synctex");
            Some((paths::join(d.as_str(), gz.as_str()), paths::join(d.as_str(), plain.as_str())))
        },
        _ => None,
    }
}

proof fn lemma_inputs_are_listed(all: Seq<Seq<char>>, n: nat)
    ensures
        listed(ScanView::after(all, n).order, ScanView::after(all, n).inputs),
    decreases n,
{
    if 0 < n <= all.len() {
        lemma_inputs_are_listed(all, (n - 1) as nat);
        let before = ScanView::after(all, (n - 1) as nat);
        let now = ScanView::after(all, n);
        if now.order != before.order {
            let t = now.order.last();
            assert(now.order == before.order.push(t));
            assert forall|x: u32| now.inputs.dom().contains(x) implies #[trigger] now.order.contains(
                x,
            ) by {
                if x == t {
                    assert(now.order[now.order.len() - 1] == x);
                } else {
                    assert(before.order.contains(x));
                    let i = choose|i: int| 0 <= i < before.order.len() && before.order[i] == x;
                    assert(now.order[i] == x);
                }
            }
        }
    }
}

// ---------------------------------------------------------------------------------------------
// Commands of editors
// ---------------------------------------------------------------------------------------------
/// A command of an editor.
#[derive(Debug)]
pub enum SyncTexCommand {
    /// Show the place that a line of a source went to.
    Forward { file: String, line: u32, column: u32 },
}

/// A command of an editor.
pub enum CommandView {
    Forward { file: Seq<char>, line: u32, column: u32 },
}

impl View for SyncTexCommand {
    type V = CommandView;

    open spec fn view(&self) -> CommandView {
        match self {
            SyncTexCommand::Forward { file, line, column } => CommandView::Forward {
                file: file@,
                line: *line,
                column: *column,
            },
        }
    }
}

/// The command that a line is: `forward <line> <column> <file>`.
pub open spec fn command_of(line: Seq<char>) -> Option<CommandView> {
    let t = trimmed(line);
    if begins(t, "forward "@) {
        match cut(t.skip("forward "@.len() as int), ' ') {
            Some((a, rest)) => match cut(rest, ' ') {
                Some((b, file)) => match (
                    parsed_uint(a, u32::MAX as nat),
                    parsed_uint(b, u32::MAX as nat),
                ) {
                    (Some(n), Some(c)) => Some(
                        CommandView::Forward { file, line: n as u32, column: c as u32 },
                    ),
                    _ => None,
                },
                None => None,
            },
            None => None,
        }
    } else {
        None
    }
}

/// The command that a line is.
pub fn parse_command(line: &str) -> (r: Option<SyncTexCommand>)
    ensures
        match r {
            Some(c) => command_of(line@) == Some(c@),
            None => command_of(line@) is None,
        },
{
    let t = text::trim_str(line);
    if !text::starts_with(t.as_str(), "forward ") {
        return None;
    }
    let cs = text::chars_of(t.as_str());
    let p = text::chars_of("forward ");
    let from: usize = p.len();
    let rest = rest_of(&cs, from);
    match cut_at(&rest, ' ') {
        Some((a, more)) => {
            match cut_at(&more, ' ') {
                Some((b, file)) => {
                    match (
                        text::parse_uint(&a, u32::MAX as u64),
                        text::parse_uint(&b, u32::MAX as u64),
                    ) {
                        (Some(n), Some(c)) => Some(
                            SyncTexCommand::Forward {
                                file: text::string_of(&file),
                                line: n as u32,
                                column: c as u32,
                            },
                        ),
                        _ => None,
                    }
                },
                None => None,
            }
        },
        None => None,
    }
}

/// The line that asks for the place of a line of a source.
pub open spec fn request(file: Seq<char>, line: u32, column: u32) -> Seq<char> {
    "forward "@ + decimal(line as nat) + " "@ + decimal(column as nat) + " "@ + file + "\n"@
}

/// The line that asks a running reader for the place of a line of a source.
pub fn send_forward_command(file: &str, line: u32, column: u32) -> (r: String)
    ensures
        r@ == request(file@, line, column),
{
    let n = text::decimal_of(line as u64);
    let c = text::decimal_of(column as u64);
    let mut s = text::copy("forward ");
    s.append(n.as_str());
    s.append(" ");
    s.append(c.as_str());
    s.append(" ");
    s.append(file);
    s.append("\n");
    s
}

/// What a running reader answered.
#[derive(Debug)]
pub enum ForwardReply {
    Accepted,
    /// It closed the connection without a word.
    Unanswered,
    /// It refused, and says why.
    Refused { reason: String },
}

/// What is said of an answer; nothing of one that accepts.
pub open spec fn reply_text(response: Seq<char>) -> Option<Seq<char>> {
    let t = trimmed(response);
    if t == "ok"@ {
        None
    } else if t.len() == 0 {
        Some("SyncTeX listener closed without acknowledging the command"@)
    } else {
        Some("SyncTeX listener error: "@ + t)
    }
}

/// What a running reader answered.
pub fn read_reply(response: &str) -> (r: ForwardReply)
    ensures
        match r {
            ForwardReply::Accepted => trimmed(response@) == "ok"@,
            ForwardReply::Unanswered => trimmed(response@).len() == 0,
            ForwardReply::Refused { reason } => trimmed(response@) != "ok"@ && trimmed(
                response@,
            ).len() > 0 && reason@ == trimmed(response@),
        },
{
    let t = text::trim_str(response);
    let cs = text::chars_of(t.as_str());
    if text::same(t.as_str(), "ok") {
        ForwardReply::Accepted
    } else if cs.len() == 0 {
        ForwardReply::Unanswered
    } else {
        ForwardReply::Refused { reason: t }
    }
}

/// What is said of an answer that does not accept.
pub fn reply_error(response: &str) -> (r: Option<String>)
    ensures
        option_view(r) == reply_text(response@),
{
    proof {
        reveal_strlit("ok");
    }
    match read_reply(response) {
        ForwardReply::Accepted => None,
        ForwardReply::Unanswered => Some(
            text::copy("SyncTeX listener closed without acknowledging the command"),
        ),
        ForwardReply::Refused { reason } => {
            let mut s = text::copy("SyncTeX listener error: ");
            s.append(reason.as_str());
            Some(s)
        },
    }
}

/// What a reader answers, and whether it stops listening: `understood` says whether the line was a
/// command, `delivered` whether the command reached the application.
pub open spec fn listener_reply(understood: bool, delivered: bool) -> (Seq<char>, bool) {
    if !understood {
        ("error unknown command\n"@, false)
    } else if delivered {
        ("ok\n"@, false)
    } else {
        ("error channel closed\n"@, true)
    }
}

/// What a reader answers to a line that was parsed, and whether it stops listening.
pub fn answer_line(command: &Option<SyncTexCommand>, delivered: bool) -> (r: (&'static str, bool))
    ensures
        (r.0@, r.1) == listener_reply(command is Some, delivered),
{
    match command {
        None => ("error unknown command\n", false),
        Some(_) => if delivered {
            ("ok\n", false)
        } else {
            ("error channel closed\n", true)
        },
    }
}

// ---------------------------------------------------------------------------------------------
// Sockets
// ---------------------------------------------------------------------------------------------
/// One byte taken into a hash.
pub open spec fn hashed(hash: u64, byte: u8) -> u64 {
    (((hash ^ (byte as u64)) * 0x100000001b3) % 0x1_0000_0000_0000_0000) as u64
}

/// The hash of the first `n` bytes.
pub open spec fn path_hash(bytes: Seq<u8>, n: nat) -> u64
    decreases n,
{
    if n == 0 || n > bytes.len() {
        0xcbf29ce484222325
    } else {
        hashed(path_hash(bytes, (n - 1) as nat), bytes[n - 1])
    }
}

/// The hash of a path, the same in every process.
pub fn stable_path_hash(bytes: &[u8]) -> (r: u64)
    ensures
        r == path_hash(bytes@, bytes@.len()),
{
    let mut hash: u64 = 0xcbf29ce484222325;
    let mut i: usize = 0;
    while i < bytes.len()
        invariant
            i <= bytes@.len(),
            hash == path_hash(bytes@, i as nat),
        decreases bytes@.len() - i,
    {
        let mixed: u64 = hash ^ (bytes[i] as u64);
        hash = mixed.wrapping_mul(0x100000001b3);
        i += 1;
    }
    hash
}

/// A letter or digit of ASCII as it is, any other character as a hyphen.
pub open spec fn safe_char(c: char) -> char {
    if ('a' <= c && c <= 'z') || ('A' <= c && c <= 'Z') || ('0' <= c && c <= '9') {
        c
    } else {
        '-'
    }
}

/// The start of a name that is safe in a path.
pub open spec fn safe_name(s: Seq<char>) -> Seq<char> {
    let short = if s.len() > 16 {
        s.take(16)
    } else {
        s
    };
    short.map_values(|c: char| safe_char(c))
}

/// The name of the socket of a document.
pub open spec fn socket_name(pdf_path: Seq<char>, identity: Seq<char>) -> Seq<char> {
    let stem = match paths::stem_of(pdf_path) {
        Some(s) => s,
        None => "unknown"@,
    };
    let safe = safe_name(stem);
    let bytes = encode_utf8(identity);
    "bookokrat-stx-"@ + (if safe.len() == 0 {
        "pdf"@
    } else {
        safe
    }) + "-"@ + hex(path_hash(bytes, bytes.len()) as nat, 16) + ".sock"@
}

fn make_safe(s: &Vec<char>) -> (r: Vec<char>)
    ensures
        r@ == safe_name(s@),
{
    let n: usize = if s.len() > 16 {
        16
    } else {
        s.len()
    };
    let ghost short = s@.take(n as int);
    let mut r: Vec<char> = Vec::new();
    let mut i: usize = 0;
    while i < n
        invariant
            i <= n,
            n <= s@.len(),
            short == s@.take(n as int),
            r@ =~= short.take(i as int).map_values(|c: char| safe_char(c)),
        decreases n - i,
    {
        let c = s[i];
        let k = text::code(c);
        let safe = if (97 <= k && k <= 122) || (65 <= k && k <= 90) || (48 <= k && k <= 57) {
            c
        } else {
            '-'
        };
        assert(safe == safe_char(c));
        assert(short.take(i + 1) =~= short.take(i as int).push(c));
        r.push(safe);
        i += 1;
    }
    assert(short.take(n as int) =~= short);
    assert(s@.take(s@.len() as int) =~= s@);
    r
}

/// The socket of a document in a directory; `identity` is the full path of the document.
pub fn synctex_socket_path(dir: &str, pdf_path: &str, identity: &str) -> (r: String)
    ensures
        r@ == paths::joined(dir@, socket_name(pdf_path@, identity@)),
{
    let cs = text::chars_of(pdf_path);
    let stem = match paths::file_stem(&cs) {
        Some(s) => s,
        None => text::chars_of("unknown"),
    };
    let safe = make_safe(&stem);
    let hash = stable_path_hash(identity.as_bytes());
    let mut name = text::copy("bookokrat-stx-");
    if safe.len() == 0 {
        name.append("pdf");
    } else {
        let s = text::string_of(&safe);
        name.append(s.as_str());
    }
    name.append("-");
    let h = text::hex_of(hash, 16);
    name.append(h.as_str());
    name.append(".sock");
    paths::join(dir, name.as_str())
}

/// The full path of a document: as the system resolves it, else as it is where it is absolute, else
/// below the current directory where that is known.
pub open spec fn pdf_identity(
    pdf_path: Seq<char>,
    canonical: Option<Seq<char>>,
    cwd: Option<Seq<char>>,
) -> Seq<char> {
    match canonical {
        Some(c) => c,
        None => if paths::is_rooted(pdf_path) {
            pdf_path
        } else {
            match cwd {
                Some(d) => paths::joined(d, pdf_path),
                None => pdf_path,
            }
        },
    }
}

/// The full path of a document.
pub fn normalized_pdf_identity(
    pdf_path: &str,
    canonical: &Option<String>,
    cwd: &Option<String>,
) -> (r: String)
    ensures
        r@ == pdf_identity(pdf_path@, option_view(*canonical), option_view(*cwd)),
{
    if let Some(c) = canonical {
        return text::copy(c.as_str());
    }
    let cs = text::chars_of(pdf_path);
    if cs.len() > 0 && cs[0] == '/' {
        return text::copy(pdf_path);
    }
    match cwd {
        Some(d) => paths::join(d.as_str(), pdf_path),
        None => text::copy(pdf_path),
    }
}

// ---------------------------------------------------------------------------------------------
// Laws
// ---------------------------------------------------------------------------------------------
pub(crate) proof fn lemma_entry_from(index: Seq<IndexView>, tag: u32, line: u32, i: int)
    requires
        0 <= i <= index.len(),
    ensures
        match entry_from(index, tag, line, i) {
            Some(e) => e.tag == tag && e.line == line && exists|k: int|
                i <= k < index.len() && #[trigger] index[k] == e,
            None => forall|k: int|
                i <= k < index.len() ==> !((#[trigger] index[k]).tag == tag && index[k].line
                    == line),
        },
    decreases index.len() - i,
{
    if i < index.len() && !(index[i].tag == tag && index[i].line == line) {
        lemma_entry_from(index, tag, line, i + 1);
    }
}

/// Looking for a line finds a place that this very line went to, where there is one, and the first
/// of them.
pub proof fn law_line_itself_is_preferred(index: Seq<IndexView>, tag: u32, line: u32, k: int)
    requires
        0 <= k < index.len(),
        index[k].tag == tag,
        index[k].line == line,
        forall|j: int|
            0 <= j < k ==> !((#[trigger] index[j]).tag == tag && index[j].line == line),
    ensures
        forward_from(index, tag, line, 0) == Some(index[k]),
{
    lemma_first_entry(index, tag, line, k, 0);
    assert(nearby(line, 0) == line);
}

proof fn lemma_first_entry(index: Seq<IndexView>, tag: u32, line: u32, k: int, i: int)
    requires
        0 <= i <= k < index.len(),
        index[k].tag == tag,
        index[k].line == line,
        forall|j: int|
            0 <= j < k ==> !((#[trigger] index[j]).tag == tag && index[j].line == line),
    ensures
        entry_from(index, tag, line, i) == Some(index[k]),
    decreases k - i,
{
    if i < k {
        lemma_first_entry(index, tag, line, k, i + 1);
    }
}

/// Looking for a line finds only places of the same source, and lines at most three away from it,
/// counted round where the numbers end.
pub proof fn law_found_line_is_near(index: Seq<IndexView>, tag: u32, line: u32)
    ensures
        forward_from(index, tag, line, 0) matches Some(e) ==> e.tag == tag && exists|d: int|
            -3 <= d <= 3 && e.line == #[trigger] ((line + d) % 0x1_0000_0000) && index.contains(e),
{
    lemma_forward_from(index, tag, line, 0);
}

proof fn lemma_forward_from(index: Seq<IndexView>, tag: u32, line: u32, k: int)
    requires
        0 <= k,
    ensures
        forward_from(index, tag, line, k) matches Some(e) ==> e.tag == tag && exists|d: int|
            -3 <= d <= 3 && e.line == #[trigger] ((line + d) % 0x1_0000_0000) && index.contains(e),
    decreases 7 - k,
{
    if k < 7 {
        lemma_entry_from(index, tag, nearby(line, k), 0);
        match entry_from(index, tag, nearby(line, k), 0) {
            Some(e) => {
                let d = if k == 0 {
                    0int
                } else if k == 1 {
                    1
                } else if k == 2 {
                    -1
                } else if k == 3 {
                    2
                } else if k == 4 {
                    -2
                } else if k == 5 {
                    3
                } else {
                    -3
                };
                assert(e.line == ((line + d) % 0x1_0000_0000));
            },
            None => {
                lemma_forward_from(index, tag, line, k + 1);
            },
        }
    }
}

/// Where no line around went anywhere, nothing is found.
pub proof fn law_line_without_a_place_is_not_found(index: Seq<IndexView>, tag: u32, line: u32)
    requires
        forall|k: int|
            0 <= k < index.len() && (#[trigger] index[k]).tag == tag ==> forall|d: int|
                -3 <= d <= 3 ==> index[k].line != #[trigger] ((line + d) % 0x1_0000_0000),
    ensures
        forward_from(index, tag, line, 0) is None,
{
    law_found_line_is_near(index, tag, line);
    if let Some(e) = forward_from(index, tag, line, 0) {
        let i = choose|i: int| 0 <= i < index.len() && index[i] == e;
        assert(index[i].tag == tag);
    }
}

/// The leaf that is found is on the page, has a distance, and none on the page is nearer.
pub proof fn law_nearest_leaf_is_found(
    elements: Seq<PageElementView>,
    distances: Seq<Option<Distance>>,
    page: usize,
)
    requires
        elements.len() == distances.len(),
    ensures
        match nearest(elements, distances, page, elements.len()) {
            Some(b) => 0 <= b < elements.len() && elements[b].page == page && distances[b] is Some
                && forall|j: int|
                0 <= j < elements.len() && (#[trigger] elements[j]).page == page
                    && distances[j] is Some ==> !nearer(distances[j]->0, distances[b]->0),
            None => forall|j: int|
                0 <= j < elements.len() && (#[trigger] elements[j]).page == page
                    ==> distances[j] is None,
        },
{
    lemma_nearest(elements, distances, page, elements.len());
}

proof fn lemma_nearest(
    elements: Seq<PageElementView>,
    distances: Seq<Option<Distance>>,
    page: usize,
    n: nat,
)
    requires
        elements.len() == distances.len(),
        n <= elements.len(),
    ensures
        match nearest(elements, distances, page, n) {
            Some(b) => 0 <= b < n && elements[b].page == page && distances[b] is Some && forall|
                j: int,
            |
                0 <= j < n && (#[trigger] elements[j]).page == page && distances[j] is Some
                    ==> !nearer(distances[j]->0, distances[b]->0),
            None => forall|j: int|
                0 <= j < n && (#[trigger] elements[j]).page == page ==> distances[j] is None,
        },
    decreases n,
{
    if n > 0 {
        lemma_nearest(elements, distances, page, (n - 1) as nat);
    }
}

/// No place is on a page behind the last.
pub proof fn law_places_are_on_pages(content: Seq<char>)
    ensures
        ({
            let s = scanned(content);
            &&& forall|i: int|
                0 <= i < s.index.len() ==> (#[trigger] s.index[i]).page <= s.page_count
            &&& forall|i: int|
                0 <= i < s.elements.len() ==> (#[trigger] s.elements[i]).page <= s.page_count
        }),
{
    lemma_places(lines(content), lines(content).len());
}

proof fn lemma_places(all: Seq<Seq<char>>, n: nat)
    ensures
        ({
            let s = ScanView::after(all, n);
            &&& s.current_page <= s.page_count
            &&& forall|i: int|
                0 <= i < s.index.len() ==> (#[trigger] s.index[i]).page <= s.page_count
            &&& forall|i: int|
                0 <= i < s.elements.len() ==> (#[trigger] s.elements[i]).page <= s.page_count
        }),
    decreases n,
{
    if 0 < n <= all.len() {
        lemma_places(all, (n - 1) as nat);
    }
}

/// Every leaf that lies in a box is found from its line in the source.
pub proof fn law_leaves_are_indexed(content: Seq<char>, i: int)
    requires
        0 <= i < scanned(content).elements.len(),
        scanned(content).elements[i].parent is Some,
    ensures
        ({
            let s = scanned(content);
            let e = s.elements[i];
            s.index.contains(
                IndexView {
                    tag: e.element.tag,
                    line: e.element.line,
                    page: e.page,
                    place: e.parent->0,
                },
            )
        }),
{
    lemma_leaves(lines(content), lines(content).len(), i);
}

proof fn lemma_leaves(all: Seq<Seq<char>>, n: nat, i: int)
    requires
        0 <= i < ScanView::after(all, n).elements.len(),
        ScanView::after(all, n).elements[i].parent is Some,
    ensures
        ({
            let s = ScanView::after(all, n);
            let e = s.elements[i];
            s.index.contains(
                IndexView {
                    tag: e.element.tag,
                    line: e.element.line,
                    page: e.page,
                    place: e.parent->0,
                },
            )
        }),
    decreases n,
{
    if 0 < n <= all.len() {
        let before = ScanView::after(all, (n - 1) as nat);
        let now = ScanView::after(all, n);
        if i < before.elements.len() {
            let e = before.elements[i];
            let entry = IndexView {
                tag: e.element.tag,
                line: e.element.line,
                page: e.page,
                place: e.parent->0,
            };
            lemma_leaves(all, (n - 1) as nat, i);
            let k = choose|k: int| 0 <= k < before.index.len() && before.index[k] == entry;
            assert(now.index[k] == entry);
        } else {
            assert(now.index.last() == now.index[now.index.len() - 1]);
        }
    }
}

proof fn lemma_some_entry(index: Seq<IndexView>, tag: u32, line: u32, k: int, i: int)
    requires
        0 <= i <= k < index.len(),
        index[k].tag == tag,
        index[k].line == line,
    ensures
        entry_from(index, tag, line, i) matches Some(e) && e.tag == tag && e.line == line,
    decreases k - i,
{
    if !(index[i].tag == tag && index[i].line == line) {
        lemma_some_entry(index, tag, line, k, i + 1);
    }
}

/// The way back and forth: a leaf that lies in a box leads to a line of a source, and that line leads
/// to a place again, where the path of the source names no other.
pub proof fn law_source_leads_back_to_a_page(content: Seq<char>, i: int)
    requires
        0 <= i < scanned(content).elements.len(),
        scanned(content).elements[i].parent is Some,
        ({
            let s = scanned(content);
            let tag = s.elements[i].element.tag;
            tag_of(s, s.inputs[tag]) == Some(tag)
        }),
    ensures
        ({
            let s = scanned(content);
            let e = s.elements[i].element;
            let place = match tag_of(s, s.inputs[e.tag]) {
                Some(tag) => forward_from(s.index, tag, e.line, 0),
                None => None,
            };
            place matches Some(found) && found.tag == e.tag && found.line == e.line
        }),
{
    let s = scanned(content);
    let e = s.elements[i];
    law_leaves_are_indexed(content, i);
    let entry = IndexView {
        tag: e.element.tag,
        line: e.element.line,
        page: e.page,
        place: e.parent->0,
    };
    let k = choose|k: int| 0 <= k < s.index.len() && s.index[k] == entry;
    lemma_some_entry(s.index, e.element.tag, e.element.line, k, 0);
    assert(nearby(e.element.line, 0) == e.element.line);
}

/// Nothing is read behind the line that ends the content.
pub proof fn law_nothing_is_read_behind_the_end(all: Seq<Seq<char>>, n: nat, m: nat)
    requires
        n <= m <= all.len(),
        ScanView::after(all, n).ended,
    ensures
        ScanView::after(all, m) == ScanView::after(all, n),
    decreases m,
{
    if n < m {
        law_nothing_is_read_behind_the_end(all, n, (m - 1) as nat);
    }
}

/// Whether a text can be a component of a path that is no detour.
spec fn is_plain(part: Seq<char>) -> bool {
    &&& part.len() > 0
    &&& !part.contains('/')
    &&& part != seq!['.']
    &&& part != seq!['.', '.']
}

proof fn lemma_resolved(all: Seq<Seq<char>>, n: nat)
    requires
        forall|i: int|
            0 <= i < all.len() ==> (#[trigger] all[i]).len() > 0 && !all[i].contains('/'),
    ensures
        forall|i: int| 0 <= i < resolved(all, n).len() ==> is_plain(#[trigger] resolved(all, n)[i]),
    decreases n,
{
    if 0 < n <= all.len() {
        lemma_resolved(all, (n - 1) as nat);
        let before = resolved(all, (n - 1) as nat);
        let now = resolved(all, n);
        assert forall|i: int| 0 <= i < now.len() implies is_plain(#[trigger] now[i]) by {
            if i < before.len() {
                assert(now[i] == before[i]);
            } else {
                assert(now[i] == all[n - 1]);
            }
        }
    }
}

proof fn lemma_nothing_to_resolve(all: Seq<Seq<char>>, n: nat)
    requires
        n <= all.len(),
        forall|i: int| 0 <= i < all.len() ==> is_plain(#[trigger] all[i]),
    ensures
        resolved(all, n) == all.take(n as int),
    decreases n,
{
    if n > 0 {
        lemma_nothing_to_resolve(all, (n - 1) as nat);
        assert(is_plain(all[n - 1]));
        assert(all.take(n as int) =~= all.take(n - 1).push(all[n - 1]));
    } else {
        assert(all.take(0) =~= Seq::empty());
    }
}

proof fn lemma_slashed_first(parts: Seq<Seq<char>>)
    requires
        parts.len() > 1,
    ensures
        slashed(parts) == parts[0] + seq!['/'] + slashed(parts.skip(1)),
    decreases parts.len(),
{
    let front = parts.drop_last();
    let rest = parts.skip(1);
    if parts.len() == 2 {
        assert(slashed(front) == parts[0]);
        assert(slashed(rest) == parts[1]);
    } else {
        lemma_slashed_first(front);
        assert(front.skip(1) =~= rest.drop_last());
        assert(parts[0] + seq!['/'] + slashed(rest.drop_last()) + seq!['/'] + parts.last()
            =~= parts[0] + seq!['/'] + (slashed(rest.drop_last()) + seq!['/'] + parts.last()));
    }
}

/// The components of a path that ends with components joined by `/`, from where these begin.
proof fn lemma_components_of_slashed(s: Seq<char>, i: int, parts: Seq<Seq<char>>)
    requires
        0 <= i <= s.len(),
        s.skip(i) == slashed(parts),
        forall|k: int| 0 <= k < parts.len() ==> is_plain(#[trigger] parts[k]),
    ensures
        paths::component_ranges(s, i).map_values(|r: (int, int)| s.subrange(r.0, r.1)) == parts,
    decreases parts.len(),
{
    let f = |r: (int, int)| s.subrange(r.0, r.1);
    text::lemma_index_from(s, '/', i);
    let to = paths::slash_from(s, i);
    assert forall|k: int| 0 <= k < s.skip(i).len() implies #[trigger] s.skip(i)[k] == s[i + k] by {}
    if parts.len() == 0 {
        assert(s.len() == i);
        assert(paths::component_ranges(s, i).map_values(f) =~= parts);
    } else {
        let first = parts[0];
        assert(is_plain(first));
        if parts.len() > 1 {
            lemma_slashed_first(parts);
        }
        let end = i + first.len();
        assert(slashed(parts).take(first.len() as int) =~= first);
        assert(s.subrange(i, end) =~= first) by {
            assert(s.subrange(i, end) =~= s.skip(i).take(first.len() as int));
        }
        assert forall|k: int| i <= k < end implies s[k] != '/' by {
            assert(first[k - i] == s.subrange(i, end)[k - i]);
            assert(first.contains(first[k - i]));
        }
        if parts.len() == 1 {
            assert(to == s.len());
            assert(paths::component_ranges(s, i) =~= seq![(i, end)]);
            assert(seq![(i, end)].map_values(f) =~= parts);
        } else {
            assert(s.skip(i)[first.len() as int] == '/');
            assert(s[end] == '/');
            assert(to == end);
            let rest = parts.skip(1);
            assert(s.skip(end + 1) =~= slashed(rest)) by {
                assert(s.skip(end + 1) =~= s.skip(i).skip(first.len() as int + 1));
                assert((first + seq!['/'] + slashed(rest)).skip(first.len() as int + 1) =~= slashed(rest));
            }
            assert forall|k: int| 0 <= k < rest.len() implies is_plain(#[trigger] rest[k]) by {
                assert(rest[k] == parts[k + 1]);
            }
            lemma_components_of_slashed(s, end + 1, rest);
            let behind = paths::component_ranges(s, end + 1);
            assert(paths::component_ranges(s, i) == seq![(i, end)] + behind);
            assert((seq![(i, end)] + behind).map_values(f) =~= seq![first] + behind.map_values(f));
            assert(seq![first] + rest =~= parts);
        }
    }
}

/// The components of a path without detours are those that the detours leave, and it starts at the
/// root where the path did.
pub proof fn law_normal_path_has_its_components(s: Seq<char>)
    ensures
        paths::components(normalized(s)) == direct(s),
        paths::is_rooted(normalized(s)) == paths::is_rooted(s),
{
    let all = paths::components(s);
    let parts = direct(s);
    let n = normalized(s);
    paths::lemma_components_are_plain(s);
    lemma_resolved(all, all.len());
    if paths::is_rooted(s) {
        assert(n.skip(1) =~= slashed(parts));
        lemma_components_of_slashed(n, 1, parts);
        assert(paths::slash_from(n, 0) == 0);
        assert(paths::component_ranges(n, 0) =~= paths::component_ranges(n, 1));
    } else {
        assert(n.skip(0) =~= slashed(parts));
        lemma_components_of_slashed(n, 0, parts);
        if parts.len() > 0 {
            assert(is_plain(parts[0]));
            assert(parts[0].contains(parts[0][0]));
            if parts.len() > 1 {
                lemma_slashed_first(parts);
            }
            assert(n[0] == parts[0][0]);
        }
    }
}

/// A path without detours has neither `.` nor `..` among its components.
pub proof fn law_detours_are_gone(s: Seq<char>)
    ensures
        forall|i: int|
            0 <= i < paths::components(normalized(s)).len() ==> #[trigger] paths::components(
                normalized(s),
            )[i] != seq!['.'] && paths::components(normalized(s))[i] != seq!['.', '.'],
{
    law_normal_path_has_its_components(s);
    paths::lemma_components_are_plain(s);
    lemma_resolved(paths::components(s), paths::components(s).len());
    assert forall|i: int| 0 <= i < paths::components(normalized(s)).len() implies
        #[trigger] paths::components(normalized(s))[i] != seq!['.'] && paths::components(
        normalized(s),
    )[i] != seq!['.', '.'] by {
        assert(is_plain(direct(s)[i]));
    }
}

/// A path without detours stays as it is.
pub proof fn law_normal_path_is_kept(s: Seq<char>)
    ensures
        normalized(normalized(s)) == normalized(s),
{
    let all = paths::components(s);
    let parts = direct(s);
    law_normal_path_has_its_components(s);
    paths::lemma_components_are_plain(s);
    lemma_resolved(all, all.len());
    lemma_nothing_to_resolve(parts, parts.len());
    assert(parts.take(parts.len() as int) =~= parts);
}

proof fn lemma_tag_by_path_names_it(
    order: Seq<u32>,
    inputs: Map<u32, Seq<char>>,
    file: Seq<char>,
    i: int,
)
    ensures
        tag_by_path(order, inputs, file, i) matches Some(t) ==> names_path(inputs[t], file),
    decreases order.len() - i,
{
    if 0 <= i < order.len() && !names_path(inputs[order[i]], file) {
        lemma_tag_by_path_names_it(order, inputs, file, i + 1);
    }
}

proof fn lemma_tag_by_name_has_it(
    order: Seq<u32>,
    inputs: Map<u32, Seq<char>>,
    name: Seq<char>,
    n: nat,
)
    ensures
        tag_by_name(order, inputs, name, n) matches Some(t) ==> base_name(inputs[t]) == name,
    decreases n,
{
    if 0 < n <= order.len() && base_name(inputs[order[n - 1]]) != name {
        lemma_tag_by_name_has_it(order, inputs, name, (n - 1) as nat);
    }
}

proof fn lemma_plain_name(file: Seq<char>)
    requires
        is_plain(file),
    ensures
        paths::components(file) == seq![file],
        base_name(file) == file,
        normalized(file) == file,
{
    let one = seq![file];
    assert(file.skip(0) =~= slashed(one));
    lemma_components_of_slashed(file, 0, one);
    lemma_nothing_to_resolve(one, 1);
    assert(one.take(1) =~= one);
    assert(paths::components(file) == one);
    assert(file.contains(file[0]));
}

/// A file name alone finds only a source of that name: the last component of its path, as it is or
/// without detours, is the name.
pub proof fn law_file_name_finds_its_file(s: ScannerView, file: Seq<char>)
    requires
        file.len() > 0,
        !file.contains('/'),
        file != seq!['.'],
        file != seq!['.', '.'],
    ensures
        tag_of(s, file) matches Some(t) ==> {
            let here = paths::components(s.inputs[t]);
            let there = paths::components(normalized(s.inputs[t]));
            here.len() > 0 && here.last() == file || there.len() > 0 && there.last() == file
        },
{
    lemma_plain_name(file);
    lemma_tag_by_path_names_it(s.order, s.inputs, file, 0);
    lemma_tag_by_name_has_it(s.order, s.inputs, file, s.order.len());
    if let Some(t) = tag_of(s, file) {
        let path = s.inputs[t];
        if leads_to(path, file) {
            paths::lemma_last_component(path, file);
        } else if leads_to(normalized(path), file) {
            paths::lemma_last_component(normalized(path), file);
        }
    }
}

/// A source is found by its own path.
pub proof fn law_source_is_found_by_its_path(s: ScannerView, k: int)
    requires
        0 <= k < s.order.len(),
    ensures
        tag_of(s, s.inputs[s.order[k]]) matches Some(t) && s.order.contains(t) && names_path(
            s.inputs[t],
            s.inputs[s.order[k]],
        ),
{
    let file = s.inputs[s.order[k]];
    lemma_tag_by_path(s.order, s.inputs, file, k, 0);
}

proof fn lemma_tag_by_path(
    order: Seq<u32>,
    inputs: Map<u32, Seq<char>>,
    file: Seq<char>,
    k: int,
    i: int,
)
    requires
        0 <= i <= k < order.len(),
        names_path(inputs[order[k]], file),
    ensures
        tag_by_path(order, inputs, file, i) matches Some(t) && order.contains(t) && names_path(
            inputs[t],
            file,
        ),
    decreases k - i,
{
    if !names_path(inputs[order[i]], file) {
        lemma_tag_by_path(order, inputs, file, k, i + 1);
    } else {
        assert(order[i] == tag_by_path(order, inputs, file, i)->0);
    }
}

pub(crate) proof fn lemma_cut(a: Seq<char>, c: char, b: Seq<char>)
    requires
        forall|i: int| 0 <= i < a.len() ==> #[trigger] a[i] != c,
    ensures
        cut(a + seq![c] + b, c) == Some((a, b)),
{
    let s = a + seq![c] + b;
    text::lemma_index_from(s, c, 0);
    let i = index_from(s, c, 0);
    assert(s[a.len() as int] == c);
    if i < a.len() {
        assert(s[i] == a[i]);
    }
    assert(i == a.len());
    assert(s.take(i) =~= a);
    assert(s.skip(i + 1) =~= b);
}

/// The command that was sent for a source is the command that is read: the end of the line and
/// white space at the end of a path are the only things that are lost.
pub proof fn law_sent_command_is_read(file: Seq<char>, line: u32, column: u32)
    requires
        file.len() > 0,
        !text::is_space(file.last()),
    ensures
        command_of(request(file, line, column)) == Some(
            CommandView::Forward { file, line, column },
        ),
{
    reveal_strlit("forward ");
    reveal_strlit(" ");
    reveal_strlit("\n");
    let n = decimal(line as nat);
    let c = decimal(column as nat);
    let r = request(file, line, column);
    let t = r.drop_last();
    assert(trimmed(r) == t) by {
        assert(r[0] == 'f');
        assert(text::trimmed_start(r) == r);
        assert(r.last() == '\n');
        assert(t.last() == file.last());
        assert(text::trimmed_end(r) == text::trimmed_end(t));
        assert(text::trimmed_end(t) == t);
    }
    assert(begins(t, "forward "@)) by {
        assert(t.subrange(0, 8) =~= "forward "@);
    }
    text::lemma_decimal_value(line as nat);
    text::lemma_decimal_value(column as nat);
    text::lemma_decimal_reads_back(line as nat, u32::MAX as nat);
    text::lemma_decimal_reads_back(column as nat, u32::MAX as nat);
    let rest = c + seq![' '] + file;
    assert(t.skip(8) =~= n + seq![' '] + rest);
    assert forall|i: int| 0 <= i < n.len() implies #[trigger] n[i] != ' ' by {
        assert(text::is_digit(n[i]));
    }
    assert forall|i: int| 0 <= i < c.len() implies #[trigger] c[i] != ' ' by {
        assert(text::is_digit(c[i]));
    }
    lemma_cut(n, ' ', rest);
    lemma_cut(c, ' ', file);
}

/// Every answer of a reader is told apart: an accepted command from one that was refused.
pub proof fn law_answers_are_understood(line: Seq<char>, delivered: bool)
    ensures
        reply_text(listener_reply(command_of(line) is Some, delivered).0) is None <==> (command_of(
            line,
        ) is Some && delivered),
{
    reveal_strlit("ok");
    reveal_strlit("ok\n");
    reveal_strlit("error unknown command\n");
    reveal_strlit("error channel closed\n");
    let ok = "ok\n"@;
    assert(text::trimmed_start(ok) == ok);
    assert(ok.drop_last() =~= "ok"@);
    assert(text::trimmed_end(ok) == text::trimmed_end("ok"@));
    assert(trimmed(ok) == "ok"@);
    let unknown = "error unknown command\n"@;
    assert(text::trimmed_start(unknown) == unknown);
    assert(unknown.drop_last().last() == 'd');
    assert(text::trimmed_end(unknown) == text::trimmed_end(unknown.drop_last()));
    assert(trimmed(unknown)[0] == 'e');
    let closed = "error channel closed\n"@;
    assert(text::trimmed_start(closed) == closed);
    assert(closed.drop_last().last() == 'd');
    assert(text::trimmed_end(closed) == text::trimmed_end(closed.drop_last()));
    assert(trimmed(closed)[0] == 'e');
    assert("ok"@[0] == 'o');
}

/// The name of a socket is short, whatever the document is called, and holds only letters, digits,
/// hyphens and dots.
pub proof fn law_socket_name_is_short(pdf_path: Seq<char>, identity: Seq<char>)
    ensures
        socket_name(pdf_path, identity).len() <= 52,
        forall|i: int|
            0 <= i < socket_name(pdf_path, identity).len() ==> {
                let c = #[trigger] socket_name(pdf_path, identity)[i];
                c == '.' || safe_char(c) == c
            },
{
    reveal_strlit("unknown");
    reveal_strlit("bookokrat-stx-");
    reveal_strlit("pdf");
    reveal_strlit("-");
    reveal_strlit(".sock");
    let bytes = encode_utf8(identity);
    lemma_hex(path_hash(bytes, bytes.len()) as nat, 16);
}

proof fn lemma_hex(n: nat, width: nat)
    ensures
        hex(n, width).len() == width,
        forall|i: int| 0 <= i < width ==> safe_char(#[trigger] hex(n, width)[i]) == hex(n, width)[i],
    decreases width,
{
    if width > 0 {
        lemma_hex(n / 16, (width - 1) as nat);
    }
}

} // verus!