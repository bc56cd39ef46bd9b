//! The text of a book as the search sees it: lines, each with the node that it stands in.
use vstd::prelude::*;
use vstd::string::*;

use crate::text;
use crate::text::{decimal, join, join_texts, lines, trimmed, trimmed_end, views};

verus! {

// ---------------------------------------------------------------------------------------------
// Documents
// ---------------------------------------------------------------------------------------------
/// Running text.
pub struct Text {
    pub parts: Vec<TextOrInline>,
}

/// A piece of running text.
pub enum TextOrInline {
    Text(String),
    Inline(Inline),
}

/// What stands within running text.
pub enum Inline {
    Link { text: Text },
    Image { alt_text: String },
    LineBreak,
    /// An element without text of its own.
    Other,
}

/// A block of a document.
pub enum Block {
    Paragraph { content: Text },
    Heading { content: Text },
    List { items: Vec<ListItem> },
    Quote { nodes: Vec<Node> },
    CodeBlock { code: String },
    Table { header: Option<TableRow>, rows: Vec<TableRow> },
    DefinitionList { definitions: Vec<DefinitionItem> },
    EpubBlock { nodes: Vec<Node> },
    /// A block without text of its own.
    Other,
}

/// A block with its place in the document.
pub struct Node {
    pub block: Block,
}

/// An item of a list.
pub struct ListItem {
    pub content: Vec<Node>,
}

/// A row of a table.
pub struct TableRow {
    pub cells: Vec<TableCellContent>,
}

/// What a cell of a table holds.
pub enum TableCellContent {
    Simple(Text),
    Rich(Vec<Node>),
}

/// A term with its definitions.
pub struct DefinitionItem {
    pub term: Text,
    pub definitions: Vec<Vec<Node>>,
}

/// A chapter as a document.
pub struct Document {
    pub blocks: Vec<Node>,
}

/// A line that can be searched.
pub struct SearchLine {
    pub text: String,
    pub node_index: usize,
}

impl View for SearchLine {
    type V = (Seq<char>, usize);

    open spec fn view(&self) -> (Seq<char>, usize) {
        (self.text@, self.node_index)
    }
}

/// The lines that a vector of them holds.
pub open spec fn line_views(v: Seq<SearchLine>) -> Seq<(Seq<char>, usize)> {
    v.map_values(|l: SearchLine| l@)
}

// ---------------------------------------------------------------------------------------------
// Running text
// ---------------------------------------------------------------------------------------------
/// The plain text of a piece.
pub open spec fn part_plain(part: TextOrInline) -> Seq<char>
    decreases part, 0nat,
{
    match part {
        TextOrInline::Text(s) => s@,
        TextOrInline::Inline(inline) => match inline {
            Inline::Link { text } => parts_plain(text.parts@, text.parts@.len()),
            Inline::Image { alt_text } => alt_text@,
            Inline::LineBreak => seq![' '],
            Inline::Other => Seq::empty(),
        },
    }
}

/// The plain text of the first `n` pieces.
pub open spec fn parts_plain(parts: Seq<TextOrInline>, n: nat) -> Seq<char>
    decreases parts, n,
{
    if n == 0 || n > parts.len() {
        Seq::empty()
    } else {
        parts_plain(parts, (n - 1) as nat) + part_plain(parts[n - 1])
    }
}

/// The plain text of running text.
pub open spec fn plain(t: Text) -> Seq<char> {
    parts_plain(t.parts@, t.parts@.len())
}

/// The plain text of running text.
pub fn extract_text_from_text(t: &Text) -> (r: String)
    ensures
        r@ == plain(*t),
    decreases t.parts,
{
    let mut r = String::new();
    let mut i: usize = 0;
    assert(r@ =~= parts_plain(t.parts@, 0));
    while i < t.parts.len()
        invariant
            i <= t.parts@.len(),
            r@ == parts_plain(t.parts@, i as nat),
        decreases t.parts@.len() - i,
    {
        let ghost before = r@;
        let part = &t.parts[i];
        assert(decreases_to!(t.parts => t.parts@[i as int]));
        match part {
            TextOrInline::Text(s) => {
                r.append(s.as_str());
            },
            TextOrInline::Inline(inline) => {
                match inline {
                    Inline::Link { text } => {
                        let inner = extract_text_from_text(text);
                        r.append(inner.as_str());
                    },
                    Inline::Image { alt_text } => {
                        r.append(alt_text.as_str());
                    },
                    Inline::LineBreak => {
                        r.push(' ');
                        assert(r@ =~= before + seq![' ']);
                    },
                    Inline::Other => {
                        assert(r@ =~= before + Seq::<char>::empty());
                    },
                }
            },
        }
        assert(r@ == before + part_plain(t.parts@[i as int]));
        i += 1;
    }
    r
}

// ---------------------------------------------------------------------------------------------
// The text of a node as one line
// ---------------------------------------------------------------------------------------------
/// The text of a block on one line.
pub open spec fn block_text(block: Block) -> Seq<char>
    decreases block, 0nat,
{
    match block {
        Block::Paragraph { content } => plain(content),
        Block::Heading { content } => plain(content),
        Block::CodeBlock { code } => code@,
        Block::Quote { nodes } => join(node_texts(nodes@, nodes@.len())),
        Block::List { items } => join(item_texts(items@, items@.len())),
        Block::Table { header, rows } => {
            let head = match header {
                Some(row) => join(cell_words(row.cells@, row.cells@.len())),
                None => Seq::empty(),
            };
            head + rows_words(rows@, rows@.len())
        },
        _ => Seq::empty(),
    }
}

/// The texts of the first `n` nodes.
pub open spec fn node_texts(nodes: Seq<Node>, n: nat) -> Seq<Seq<char>>
    decreases nodes, n,
{
    if n == 0 || n > nodes.len() {
        Seq::empty()
    } else {
        node_texts(nodes, (n - 1) as nat).push(block_text(nodes[n - 1].block))
    }
}

/// The texts of the nodes of the first `n` items.
pub open spec fn item_texts(items: Seq<ListItem>, n: nat) -> Seq<Seq<char>>
    decreases items, n,
{
    if n == 0 || n > items.len() {
        Seq::empty()
    } else {
        item_texts(items, (n - 1) as nat) + node_texts(
            items[n - 1].content@,
            items[n - 1].content@.len(),
        )
    }
}

/// The words of the first `n` cells, the nodes within a cell joined.
pub open spec fn cell_words(cells: Seq<TableCellContent>, n: nat) -> Seq<Seq<char>>
    decreases cells, n,
{
    if n == 0 || n > cells.len() {
        Seq::empty()
    } else {
        let word = match cells[n - 1] {
            TableCellContent::Simple(t) => plain(t),
            TableCellContent::Rich(nodes) => join(node_texts(nodes@, nodes@.len())),
        };
        cell_words(cells, (n - 1) as nat).push(word)
    }
}

/// The words of the first `n` rows, one row behind the other.
pub open spec fn rows_words(rows: Seq<TableRow>, n: nat) -> Seq<char>
    decreases rows, n,
{
    if n == 0 || n > rows.len() {
        Seq::empty()
    } else {
        rows_words(rows, (n - 1) as nat) + join(
            cell_words(rows[n - 1].cells@, rows[n - 1].cells@.len()),
        )
    }
}

fn texts_of_nodes(nodes: &Vec<Node>) -> (r: Vec<String>)
    ensures
        text::texts(r@) == node_texts(nodes@, nodes@.len()),
    decreases *nodes,
{
    let mut r: Vec<String> = Vec::new();
    let mut i: usize = 0;
    assert(text::texts(r@) =~= node_texts(nodes@, 0));
    while i < nodes.len()
        invariant
            i <= nodes@.len(),
            text::texts(r@) == node_texts(nodes@, i as nat),
        decreases nodes@.len() - i,
    {
        assert(decreases_to!(*nodes => nodes@[i as int]));
        let s = extract_node_text(&nodes[i]);
        proof {
            text::lemma_texts_push(r@, s);
        }
        r.push(s);
        i += 1;
    }
    r
}

fn texts_of_items(items: &Vec<ListItem>) -> (r: Vec<String>)
    ensures
        text::texts(r@) == item_texts(items@, items@.len()),
    decreases *items,
{
    let mut r: Vec<String> = Vec::new();
    let mut i: usize = 0;
    assert(text::texts(r@) =~= item_texts(items@, 0));
    while i < items.len()
        invariant
            i <= items@.len(),
            text::texts(r@) == item_texts(items@, i as nat),
        decreases items@.len() - i,
    {
        assert(decreases_to!(*items => items@[i as int]));
        let mut more = texts_of_nodes(&items[i].content);
        let ghost before = r@;
        let ghost added = more@;
        r.append(&mut more);
        assert(text::texts(r@) =~= text::texts(before) + text::texts(added));
        i += 1;
    }
    r
}

fn words_of_cells(cells: &Vec<TableCellContent>) -> (r: Vec<String>)
    ensures
        text::texts(r@) == cell_words(cells@, cells@.len()),
    decreases *cells,
{
    let mut r: Vec<String> = Vec::new();
    let mut i: usize = 0;
    assert(text::texts(r@) =~= cell_words(cells@, 0));
    while i < cells.len()
        invariant
            i <= cells@.len(),
            text::texts(r@) == cell_words(cells@, i as nat),
        decreases cells@.len() - i,
    {
        assert(decreases_to!(*cells => cells@[i as int]));
        let s = match &cells[i] {
            TableCellContent::Simple(t) => extract_text_from_text(t),
            TableCellContent::Rich(nodes) => {
                let parts = texts_of_nodes(nodes);
                join_texts(&parts)
            },
        };
        proof {
            text::lemma_texts_push(r@, s);
        }
        r.push(s);
        i += 1;
    }
    r
}

/// The text of a node on one line.
pub fn extract_node_text(node: &Node) -> (r: String)
    ensures
        r@ == block_text(node.block),
    decreases *node,
{
    match &node.block {
        Block::Paragraph { content } => extract_text_from_text(content),
        Block::Heading { content } => extract_text_from_text(content),
        Block::CodeBlock { code } => text::copy(code.as_str()),
        Block::Quote { nodes } => {
            let parts = texts_of_nodes(nodes);
            join_texts(&parts)
        },
        Block::List { items } => {
            let parts = texts_of_items(items);
            join_texts(&parts)
        },
        Block::Table { header, rows } => {
            let mut r = String::new();
            if let Some(row) = header {
                let words = words_of_cells(&row.cells);
                let line = join_texts(&words);
                r.append(line.as_str());
                assert(r@ =~= line@);
            }
            let ghost head = r@;
            let mut i: usize = 0;
            assert(r@ =~= head + rows_words(rows@, 0));
            while i < rows.len()
                invariant
                    i <= rows@.len(),
                    r@ == head + rows_words(rows@, i as nat),
                    decreases_to!(*node => rows),
                decreases rows@.len() - i,
            {
                assert(decreases_to!(rows => rows@[i as int]));
                let words = words_of_cells(&rows[i].cells);
                let line = join_texts(&words);
                let ghost before = r@;
                r.append(line.as_str());
                assert(r@ =~= head + (rows_words(rows@, i as nat) + line@));
                i += 1;
            }
            r
        },
        _ => {
            let r = String::new();
            assert(r@ =~= Seq::<char>::empty());
            r
        },
    }
}

// ---------------------------------------------------------------------------------------------
// The lines of a block
// ---------------------------------------------------------------------------------------------
/// One line, unless it is blank.
pub open spec fn line_unless_blank(s: Seq<char>, index: usize) -> Seq<(Seq<char>, usize)> {
    if trimmed(s).len() == 0 {
        Seq::empty()
    } else {
        seq![(s, index)]
    }
}

/// The lines of a block.
pub open spec fn block_lines(block: Block, index: usize) -> Seq<(Seq<char>, usize)>
    decreases block, 0nat,
{
    match block {
        Block::Paragraph { content } => line_unless_blank(plain(content), index),
        Block::Heading { content } => line_unless_blank(plain(content), index),
        Block::List { items } => item_lines(items@, items@.len(), index),
        Block::Quote { nodes } => node_lines(nodes@, nodes@.len(), index),
        Block::CodeBlock { code } => seq![(code@, index)],
        Block::Table { header, rows } => {
            let head = match header {
                Some(row) => cell_lines(row.cells@, row.cells@.len(), index) + row_line(
                    row.cells@,
                    index,
                ),
                None => Seq::empty(),
            };
            head + row_lines(rows@, rows@.len(), index)
        },
        Block::DefinitionList { definitions } => term_lines(
            definitions@,
            definitions@.len(),
            index,
        ),
        Block::EpubBlock { nodes } => node_lines(nodes@, nodes@.len(), index),
        Block::Other => Seq::empty(),
    }
}

/// The lines of the first `n` nodes.
pub open spec fn node_lines(nodes: Seq<Node>, n: nat, index: usize) -> Seq<(Seq<char>, usize)>
    decreases nodes, n,
{
    if n == 0 || n > nodes.len() {
        Seq::empty()
    } else {
        node_lines(nodes, (n - 1) as nat, index) + block_lines(nodes[n - 1].block, index)
    }
}

/// The lines of the first `n` items.
pub open spec fn item_lines(items: Seq<ListItem>, n: nat, index: usize) -> Seq<(Seq<char>, usize)>
    decreases items, n,
{
    if n == 0 || n > items.len() {
        Seq::empty()
    } else {
        item_lines(items, (n - 1) as nat, index) + node_lines(
            items[n - 1].content@,
            items[n - 1].content@.len(),
            index,
        )
    }
}

/// The lines that the blocks within the first `n` cells make by themselves.
pub open spec fn cell_lines(cells: Seq<TableCellContent>, n: nat, index: usize) -> Seq<
    (Seq<char>, usize),
>
    decreases cells, n,
{
    if n == 0 || n > cells.len() {
        Seq::empty()
    } else {
        cell_lines(cells, (n - 1) as nat, index) + match cells[n - 1] {
            TableCellContent::Simple(_) => Seq::empty(),
            TableCellContent::Rich(nodes) => node_lines(nodes@, nodes@.len(), index),
        }
    }
}

/// The texts of the first `n` nodes, one behind the other.
pub open spec fn nodes_run_on(nodes: Seq<Node>, n: nat) -> Seq<char>
    decreases n,
{
    if n == 0 || n > nodes.len() {
        Seq::empty()
    } else {
        nodes_run_on(nodes, (n - 1) as nat) + block_text(nodes[n - 1].block)
    }
}

/// The text of a cell.
pub open spec fn cell_text(cell: TableCellContent) -> Seq<char> {
    match cell {
        TableCellContent::Simple(t) => plain(t),
        TableCellContent::Rich(nodes) => nodes_run_on(nodes@, nodes@.len()),
    }
}

/// The line of a row: the texts of its cells with spaces between them; a row without cells has none.
pub open spec fn row_line(cells: Seq<TableCellContent>, index: usize) -> Seq<(Seq<char>, usize)> {
    if cells.len() == 0 {
        Seq::empty()
    } else {
        seq![(join(cells.map_values(|c: TableCellContent| cell_text(c))), index)]
    }
}

/// The lines of the first `n` rows.
pub open spec fn row_lines(rows: Seq<TableRow>, n: nat, index: usize) -> Seq<(Seq<char>, usize)>
    decreases rows, n,
{
    if n == 0 || n > rows.len() {
        Seq::empty()
    } else {
        row_lines(rows, (n - 1) as nat, index) + (cell_lines(
            rows[n - 1].cells@,
            rows[n - 1].cells@.len(),
            index,
        ) + row_line(rows[n - 1].cells@, index))
    }
}

/// The lines of the first `n` definitions of a term.
pub open spec fn definition_lines(defs: Seq<Vec<Node>>, n: nat, index: usize) -> Seq<
    (Seq<char>, usize),
>
    decreases defs, n,
{
    if n == 0 || n > defs.len() {
        Seq::empty()
    } else {
        definition_lines(defs, (n - 1) as nat, index) + node_lines(
            defs[n - 1]@,
            defs[n - 1]@.len(),
            index,
        )
    }
}

/// The lines of the first `n` terms: each term, then its definitions.
pub open spec fn term_lines(items: Seq<DefinitionItem>, n: nat, index: usize) -> Seq<
    (Seq<char>, usize),
>
    decreases items, n,
{
    if n == 0 || n > items.len() {
        Seq::empty()
    } else {
        term_lines(items, (n - 1) as nat, index) + (seq![(plain(items[n - 1].term), index)]
            + definition_lines(
            items[n - 1].definitions@,
            items[n - 1].definitions@.len(),
            index,
        ))
    }
}

/// The lines of the first `n` blocks of a document, each with the number of its block.
pub open spec fn document_lines(blocks: Seq<Node>, n: nat) -> Seq<(Seq<char>, usize)>
    decreases n,
{
    if n == 0 || n > blocks.len() {
        Seq::empty()
    } else {
        document_lines(blocks, (n - 1) as nat) + block_lines(
            blocks[n - 1].block,
            (n - 1) as usize,
        )
    }
}

fn push_line(out: &mut Vec<SearchLine>, s: String, index: usize)
    ensures
        line_views(final(out)@) == line_views(old(out)@) + seq![(s@, index)],
{
    let line = SearchLine { text: s, node_index: index };
    let ghost before = out@;
    out.push(line);
    assert(line_views(before.push(line)) =~= line_views(before) + seq![(s@, index)]);
}

fn push_unless_blank(out: &mut Vec<SearchLine>, s: String, index: usize)
    ensures
        line_views(final(out)@) == line_views(old(out)@) + line_unless_blank(s@, index),
{
    let t = text::trim_str(s.as_str());
    let cs = text::chars_of(t.as_str());
    if cs.len() > 0 {
        push_line(out, s, index);
    } else {
        assert(line_views(out@) + line_unless_blank(s@, index) =~= line_views(out@));
    }
}

fn lines_of_nodes(nodes: &Vec<Node>, index: usize, out: &mut Vec<SearchLine>)
    ensures
        line_views(final(out)@) == line_views(old(out)@) + node_lines(
            nodes@,
            nodes@.len(),
            index,
        ),
    decreases *nodes,
{
    let ghost start = line_views(out@);
    let mut i: usize = 0;
    assert(start + node_lines(nodes@, 0, index) =~= start);
    while i < nodes.len()
        invariant
            i <= nodes@.len(),
            line_views(out@) == start + node_lines(nodes@, i as nat, index),
        decreases nodes@.len() - i,
    {
        assert(decreases_to!(*nodes => nodes@[i as int]));
        extract_text_from_block(&nodes[i].block, index, out);
        assert(line_views(out@) =~= start + (node_lines(nodes@, i as nat, index) + block_lines(
            nodes@[i as int].block,
            index,
        )));
        i += 1;
    }
}

fn lines_of_items(items: &Vec<ListItem>, index: usize, out: &mut Vec<SearchLine>)
    ensures
        line_views(final(out)@) == line_views(old(out)@) + item_lines(
            items@,
            items@.len(),
            index,
        ),
    decreases *items,
{
    let ghost start = line_views(out@);
    let mut i: usize = 0;
    assert(start + item_lines(items@, 0, index) =~= start);
    while i < items.len()
        invariant
            i <= items@.len(),
            line_views(out@) == start + item_lines(items@, i as nat, index),
        decreases items@.len() - i,
    {
        assert(decreases_to!(*items => items@[i as int]));
        lines_of_nodes(&items[i].content, index, out);
        assert(line_views(out@) =~= start + (item_lines(items@, i as nat, index) + node_lines(
            items@[i as int].content@,
            items@[i as int].content@.len(),
            index,
        )));
        i += 1;
    }
}

fn lines_of_definitions(defs: &Vec<Vec<Node>>, index: usize, out: &mut Vec<SearchLine>)
    ensures
        line_views(final(out)@) == line_views(old(out)@) + definition_lines(
            defs@,
            defs@.len(),
            index,
        ),
    decreases *defs,
{
    let ghost start = line_views(out@);
    let mut i: usize = 0;
    assert(start + definition_lines(defs@, 0, index) =~= start);
    while i < defs.len()
        invariant
            i <= defs@.len(),
            line_views(out@) == start + definition_lines(defs@, i as nat, index),
        decreases defs@.len() - i,
    {
        assert(decreases_to!(*defs => defs@[i as int]));
        lines_of_nodes(&defs[i], index, out);
        assert(line_views(out@) =~= start + (definition_lines(defs@, i as nat, index) + node_lines(
            defs@[i as int]@,
            defs@[i as int]@.len(),
            index,
        )));
        i += 1;
    }
}

fn lines_of_terms(items: &Vec<DefinitionItem>, index: usize, out: &mut Vec<SearchLine>)
    ensures
        line_views(final(out)@) == line_views(old(out)@) + term_lines(
            items@,
            items@.len(),
            index,
        ),
    decreases *items,
{
    let ghost start = line_views(out@);
    let mut i: usize = 0;
    assert(start + term_lines(items@, 0, index) =~= start);
    while i < items.len()
        invariant
            i <= items@.len(),
            line_views(out@) == start + term_lines(items@, i as nat, index),
        decreases items@.len() - i,
    {
        assert(decreases_to!(*items => items@[i as int]));
        let ghost item = items@[i as int];
        let term = extract_text_from_text(&items[i].term);
        push_line(out, term, index);
        lines_of_definitions(&items[i].definitions, index, out);
        assert(line_views(out@) =~= start + (term_lines(items@, i as nat, index) + (seq![
            (plain(item.term), index),
        ] + definition_lines(item.definitions@, item.definitions@.len(), index))));
        i += 1;
    }
}

/// The text of a cell; the blocks within it make lines by themselves too.
fn extract_text_from_cell_content(
    cell: &TableCellContent,
    index: usize,
    out: &mut Vec<SearchLine>,
) -> (r: String)
    ensures
        r@ == cell_text(*cell),
        line_views(final(out)@) == line_views(old(out)@) + (match *cell {
            TableCellContent::Simple(_) => Seq::empty(),
            TableCellContent::Rich(nodes) => node_lines(nodes@, nodes@.len(), index),
        }),
    decreases *cell,
{
    match cell {
        TableCellContent::Simple(t) => {
            assert(line_views(out@) + Seq::<(Seq<char>, usize)>::empty() =~= line_views(out@));
            extract_text_from_text(t)
        },
        TableCellContent::Rich(nodes) => {
            let ghost start = line_views(out@);
            let mut r = String::new();
            let mut i: usize = 0;
            assert(start + node_lines(nodes@, 0, index) =~= start);
            assert(r@ =~= nodes_run_on(nodes@, 0));
            while i < nodes.len()
                invariant
                    i <= nodes@.len(),
                    line_views(out@) == start + node_lines(nodes@, i as nat, index),
                    r@ == nodes_run_on(nodes@, i as nat),
                    decreases_to!(*cell => nodes),
                decreases nodes@.len() - i,
            {
                assert(decreases_to!(nodes => nodes@[i as int]));
                extract_text_from_block(&nodes[i].block, index, out);
                assert(line_views(out@) =~= start + (node_lines(nodes@, i as nat, index)
                    + block_lines(nodes@[i as int].block, index)));
                let s = extract_node_text(&nodes[i]);
                r.append(s.as_str());
                i += 1;
            }
            r
        },
    }
}

fn lines_of_row(row: &TableRow, index: usize, out: &mut Vec<SearchLine>)
    ensures
        line_views(final(out)@) == line_views(old(out)@) + (cell_lines(
            row.cells@,
            row.cells@.len(),
            index,
        ) + row_line(row.cells@, index)),
    decreases *row,
{
    let ghost start = line_views(out@);
    let ghost f = |c: TableCellContent| cell_text(c);
    let mut words: Vec<String> = Vec::new();
    let mut i: usize = 0;
    assert(start + cell_lines(row.cells@, 0, index) =~= start);
    assert(text::texts(words@) =~= row.cells@.take(0).map_values(f));
    while i < row.cells.len()
        invariant
            i <= row.cells@.len(),
            f == (|c: TableCellContent| cell_text(c)),
            line_views(out@) == start + cell_lines(row.cells@, i as nat, index),
            text::texts(words@) == row.cells@.take(i as int).map_values(f),
        decreases row.cells@.len() - i,
    {
        assert(decreases_to!(*row => row.cells));
        assert(decreases_to!(row.cells => row.cells@[i as int]));
        let ghost cell = row.cells@[i as int];
        let s = extract_text_from_cell_content(&row.cells[i], index, out);
        proof {
            text::lemma_texts_push(words@, s);
            assert(row.cells@.take(i + 1) =~= row.cells@.take(i as int).push(cell));
            assert(row.cells@.take(i as int).push(cell).map_values(f) =~= row.cells@.take(
                i as int,
            ).map_values(f).push(s@));
            assert(line_views(out@) =~= start + cell_lines(row.cells@, (i + 1) as nat, index));
        }
        words.push(s);
        i += 1;
    }
    assert(row.cells@.take(i as int) =~= row.cells@);
    if words.len() > 0 {
        let line = join_texts(&words);
        push_line(out, line, index);
    }
    assert(text::texts(words@).len() == words@.len());
    assert(line_views(out@) =~= start + (cell_lines(row.cells@, row.cells@.len(), index) + row_line(
        row.cells@,
        index,
    )));
}

fn lines_of_rows(rows: &Vec<TableRow>, index: usize, out: &mut Vec<SearchLine>)
    ensures
        line_views(final(out)@) == line_views(old(out)@) + row_lines(rows@, rows@.len(), index),
    decreases *rows,
{
    let ghost start = line_views(out@);
    let mut i: usize = 0;
    assert(start + row_lines(rows@, 0, index) =~= start);
    while i < rows.len()
        invariant
            i <= rows@.len(),
            line_views(out@) == start + row_lines(rows@, i as nat, index),
        decreases rows@.len() - i,
    {
        assert(decreases_to!(*rows => rows@[i as int]));
        lines_of_row(&rows[i], index, out);
        let ghost row = rows@[i as int];
        assert(line_views(out@) =~= start + (row_lines(rows@, i as nat, index) + (cell_lines(
            row.cells@,
            row.cells@.len(),
            index,
        ) + row_line(row.cells@, index))));
        i += 1;
    }
}

/// The lines of a block.
pub fn extract_text_from_block(block: &Block, index: usize, out: &mut Vec<SearchLine>)
    ensures
        line_views(final(out)@) == line_views(old(out)@) + block_lines(*block, index),
    decreases *block,
{
    match block {
        Block::Paragraph { content } => {
            let s = extract_text_from_text(content);
            push_unless_blank(out, s, index);
        },
        Block::Heading { content } => {
            let s = extract_text_from_text(content);
            push_unless_blank(out, s, index);
        },
        Block::List { items } => {
            lines_of_items(items, index, out);
        },
        Block::Quote { nodes } => {
            lines_of_nodes(nodes, index, out);
        },
        Block::CodeBlock { code } => {
            let s = text::copy(code.as_str());
            push_line(out, s, index);
        },
        Block::Table { header, rows } => {
            let ghost start = line_views(out@);
            if let Some(row) = header {
                lines_of_row(row, index, out);
            }
            let ghost head = match header {
                Some(row) => cell_lines(row.cells@, row.cells@.len(), index) + row_line(
                    row.cells@,
                    index,
                ),
                None => Seq::empty(),
            };
            assert(line_views(out@) =~= start + head);
            lines_of_rows(rows, index, out);
            assert(line_views(out@) =~= start + (head + row_lines(rows@, rows@.len(), index)));
        },
        Block::DefinitionList { definitions } => {
            lines_of_terms(definitions, index, out);
        },
        Block::EpubBlock { nodes } => {
            lines_of_nodes(nodes, index, out);
        },
        Block::Other => {
            assert(line_views(out@) + Seq::<(Seq<char>, usize)>::empty() =~= line_views(out@));
        },
    }
}

/// The lines of a document, each with the number of the block that it stands in.
pub fn extract_text_from_markdown_doc(doc: &Document) -> (r: Vec<SearchLine>)
    ensures
        line_views(r@) == document_lines(doc.blocks@, doc.blocks@.len()),
{
    let mut out: Vec<SearchLine> = Vec::new();
    let mut i: usize = 0;
    assert(line_views(out@) =~= document_lines(doc.blocks@, 0));
    while i < doc.blocks.len()
        invariant
            i <= doc.blocks@.len(),
            line_views(out@) == document_lines(doc.blocks@, i as nat),
        decreases doc.blocks@.len() - i,
    {
        extract_text_from_block(&doc.blocks[i].block, i, &mut out);
        i += 1;
    }
    out
}

/// A chapter as the search indexes it.
pub struct IndexedChapter {
    pub index: usize,
    pub title: String,
    pub lines: Vec<SearchLine>,
}

/// The title that a chapter goes by: its own, or its number counted from one.
pub open spec fn chapter_title(index: usize, title: Option<Seq<char>>) -> Seq<char> {
    match title {
        Some(t) => t,
        None => "Chapter "@ + decimal((index + 1) as nat),
    }
}

/// Prepares a chapter for the search engine.
pub fn index_chapter(index: usize, title: Option<String>, doc: &Document) -> (r: IndexedChapter)
    requires
        index < u64::MAX,
    ensures
        r.index == index,
        r.title@ == chapter_title(
            index,
            match title {
                Some(t) => Some(t@),
                None => None,
            },
        ),
        line_views(r.lines@) == document_lines(doc.blocks@, doc.blocks@.len()),
{
    let title = match title {
        Some(t) => t,
        None => {
            let mut s = String::new();
            s.append("Chapter ");
            let n = text::decimal_of(index as u64 + 1);
            s.append(n.as_str());
            assert(s@ =~= "Chapter "@ + decimal((index + 1) as nat));
            s
        },
    };
    let lines = extract_text_from_markdown_doc(doc);
    IndexedChapter { index, title, lines }
}

// ---------------------------------------------------------------------------------------------
// Pages of lines
// ---------------------------------------------------------------------------------------------
/// The lines of the first `n` that are not blank, each with its number among all.
pub open spec fn page_lines(s: Seq<Seq<char>>, n: nat) -> Seq<(Seq<char>, usize)>
    decreases n,
{
    if n == 0 || n > s.len() {
        Seq::empty()
    } else {
        page_lines(s, (n - 1) as nat) + line_unless_blank(s[n - 1], (n - 1) as usize)
    }
}

/// The lines of a page that are not blank.
pub fn extract_page_lines(all: Vec<String>) -> (r: Vec<SearchLine>)
    ensures
        line_views(r@) == page_lines(text::texts(all@), all@.len()),
{
    let mut out: Vec<SearchLine> = Vec::new();
    let mut i: usize = 0;
    let ghost s = text::texts(all@);
    assert(line_views(out@) =~= page_lines(s, 0));
    while i < all.len()
        invariant
            i <= all@.len(),
            s == text::texts(all@),
            line_views(out@) == page_lines(s, i as nat),
        decreases all@.len() - i,
    {
        let line = text::copy(all[i].as_str());
        assert(s[i as int] == all@[i as int]@);
        push_unless_blank(&mut out, line, i);
        i += 1;
    }
    out
}

/// The lines of the first `n` lines of a text layer that are not blank, without white space at
/// their ends.
pub open spec fn layer_lines(s: Seq<Seq<char>>, n: nat) -> Seq<(Seq<char>, usize)>
    decreases n,
{
    if n == 0 || n > s.len() {
        Seq::empty()
    } else {
        layer_lines(s, (n - 1) as nat) + (if trimmed(s[n - 1]).len() == 0 {
            Seq::empty()
        } else {
            seq![(trimmed_end(s[n - 1]), (n - 1) as usize)]
        })
    }
}

/// The lines of a DjVu page: those with bounds, or those of the text layer where none is left.
pub open spec fn djvu_lines(bounded: Seq<Seq<char>>, layer: Option<Seq<char>>) -> Seq<
    (Seq<char>, usize),
> {
    let found = page_lines(bounded, bounded.len());
    if found.len() > 0 {
        found
    } else {
        match layer {
            Some(t) => layer_lines(lines(t), lines(t).len()),
            None => found,
        }
    }
}

fn trim_end_chars(s: &Vec<char>) -> (r: Vec<char>)
    ensures
        r@ == trimmed_end(s@),
{
    let mut to: usize = s.len();
    assert(s@.take(to as int) =~= s@);
    while to > 0 && text::space(s[to - 1])
        invariant
            to <= s@.len(),
            trimmed_end(s@) == trimmed_end(s@.take(to as int)),
        decreases to,
    {
        assert(s@.take(to as int).drop_last() =~= s@.take(to - 1));
        to -= 1;
    }
    let r = text::slice(s, 0, to);
    assert(r@ =~= s@.take(to as int));
    r
}

/// The lines of a DjVu page; none with bounds falls back to its text layer.
pub fn extract_djvu_page_lines(bounded: Vec<String>, layer: Option<String>) -> (r: Vec<SearchLine>)
    ensures
        line_views(r@) == djvu_lines(
            text::texts(bounded@),
            match layer {
                Some(t) => Some(t@),
                None => None,
            },
        ),
{
    let found = extract_page_lines(bounded);
    assert(line_views(found@).len() == found@.len());
    assert(text::texts(bounded@).len() == bounded@.len());
    if found.len() > 0 {
        return found;
    }
    match layer {
        None => found,
        Some(t) => {
            let cs = text::chars_of(t.as_str());
            let all = text::lines_of(&cs);
            let ghost s = lines(t@);
            assert(s.len() == all@.len()) by {
                assert(views(all@) == s);
            }
            let mut out: Vec<SearchLine> = Vec::new();
            let mut i: usize = 0;
            assert(line_views(out@) =~= layer_lines(s, 0));
            while i < all.len()
                invariant
                    i <= all@.len(),
                    s == views(all@),
                    line_views(out@) == layer_lines(s, i as nat),
                decreases all@.len() - i,
            {
                assert(s[i as int] == all@[i as int]@);
                let blank = text::trim(&all[i]);
                let ghost before = line_views(out@);
                if blank.len() > 0 {
                    let kept = trim_end_chars(&all[i]);
                    let line = text::string_of(&kept);
                    push_line(&mut out, line, i);
                } else {
                    assert(before + Seq::<(Seq<char>, usize)>::empty() =~= before);
                }
                i += 1;
            }
            out
        },
    }
}

// ---------------------------------------------------------------------------------------------
// Laws
// ---------------------------------------------------------------------------------------------
/// Every line names the given node.
pub open spec fn all_name(l: Seq<(Seq<char>, usize)>, index: usize) -> bool {
    forall|i: int| 0 <= i < l.len() ==> (#[trigger] l[i]).1 == index
}

proof fn lemma_nodes_name(nodes: Seq<Node>, n: nat, index: usize)
    ensures
        all_name(node_lines(nodes, n, index), index),
    decreases nodes, n,
{
    if 0 < n <= nodes.len() {
        lemma_nodes_name(nodes, (n - 1) as nat, index);
        law_lines_name_their_node(nodes[n - 1].block, index);
    }
}

proof fn lemma_items_name(items: Seq<ListItem>, n: nat, index: usize)
    ensures
        all_name(item_lines(items, n, index), index),
    decreases items, n,
{
    if 0 < n <= items.len() {
        lemma_items_name(items, (n - 1) as nat, index);
        lemma_nodes_name(items[n - 1].content@, items[n - 1].content@.len(), index);
    }
}

proof fn lemma_cells_name(cells: Seq<TableCellContent>, n: nat, index: usize)
    ensures
        all_name(cell_lines(cells, n, index), index),
    decreases cells, n,
{
    if 0 < n <= cells.len() {
        lemma_cells_name(cells, (n - 1) as nat, index);
        if let TableCellContent::Rich(nodes) = cells[n - 1] {
            lemma_nodes_name(nodes@, nodes@.len(), index);
        }
    }
}

proof fn lemma_rows_name(rows: Seq<TableRow>, n: nat, index: usize)
    ensures
        all_name(row_lines(rows, n, index), index),
    decreases rows, n,
{
    if 0 < n <= rows.len() {
        lemma_rows_name(rows, (n - 1) as nat, index);
        lemma_cells_name(rows[n - 1].cells@, rows[n - 1].cells@.len(), index);
    }
}

proof fn lemma_definitions_name(defs: Seq<Vec<Node>>, n: nat, index: usize)
    ensures
        all_name(definition_lines(defs, n, index), index),
    decreases defs, n,
{
    if 0 < n <= defs.len() {
        lemma_definitions_name(defs, (n - 1) as nat, index);
        lemma_nodes_name(defs[n - 1]@, defs[n - 1]@.len(), index);
    }
}

proof fn lemma_terms_name(items: Seq<DefinitionItem>, n: nat, index: usize)
    ensures
        all_name(term_lines(items, n, index), index),
    decreases items, n,
{
    if 0 < n <= items.len() {
        lemma_terms_name(items, (n - 1) as nat, index);
        lemma_definitions_name(
            items[n - 1].definitions@,
            items[n - 1].definitions@.len(),
            index,
        );
    }
}

/// However deep a line stands in a block, it names the node of that block.
pub proof fn law_lines_name_their_node(block: Block, index: usize)
    ensures
        all_name(block_lines(block, index), index),
    decreases block, 0nat,
{
    match block {
        Block::List { items } => lemma_items_name(items@, items@.len(), index),
        Block::Quote { nodes } => lemma_nodes_name(nodes@, nodes@.len(), index),
        Block::EpubBlock { nodes } => lemma_nodes_name(nodes@, nodes@.len(), index),
        Block::Table { header, rows } => {
            if let Some(row) = header {
                lemma_cells_name(row.cells@, row.cells@.len(), index);
            }
            lemma_rows_name(rows@, rows@.len(), index);
        },
        Block::DefinitionList { definitions } => lemma_terms_name(
            definitions@,
            definitions@.len(),
            index,
        ),
        _ => {},
    }
}

/// The lines of a document name its nodes, and stand in the order of the nodes: a hit can be
/// followed to a node that exists, and hits come in reading order.
pub proof fn law_lines_follow_the_document(blocks: Seq<Node>, n: nat)
    requires
        n <= blocks.len(),
        blocks.len() <= usize::MAX,
    ensures
        ({
            let l = document_lines(blocks, n);
            &&& forall|i: int| 0 <= i < l.len() ==> (#[trigger] l[i]).1 < n
            &&& forall|i: int, j: int|
                0 <= i <= j < l.len() ==> (#[trigger] l[i]).1 <= (#[trigger] l[j]).1
        }),
    decreases n,
{
    if n > 0 {
        law_lines_follow_the_document(blocks, (n - 1) as nat);
        law_lines_name_their_node(blocks[n - 1].block, (n - 1) as usize);
        let before = document_lines(blocks, (n - 1) as nat);
        let added = block_lines(blocks[n - 1].block, (n - 1) as usize);
        let l = before + added;
        assert(l == document_lines(blocks, n));
        assert forall|i: int| 0 <= i < l.len() implies (#[trigger] l[i]).1 < n by {
            if i < before.len() {
                assert(l[i] == before[i]);
            } else {
                assert(l[i] == added[i - before.len()]);
            }
        }
        assert forall|i: int, j: int| 0 <= i <= j < l.len() implies (#[trigger] l[i]).1 <= (
        #[trigger] l[j]).1 by {
            if j < before.len() {
                assert(l[i] == before[i] && l[j] == before[j]);
            } else {
                assert(l[j] == added[j - before.len()]);
                if i < before.len() {
                    assert(l[i] == before[i]);
                } else {
                    assert(l[i] == added[i - before.len()]);
                }
            }
        }
    }
}

} // verus!
