//! What holds of the text that is searched: no text of a book is lost, and none is made up.
use vstd::prelude::*;
use vstd::string::*;

use crate::main_app::search_text::{
    block_lines, block_text, cell_lines, cell_text, chapter_title, definition_lines, djvu_lines,
    document_lines, item_lines, layer_lines, law_lines_name_their_node, line_unless_blank, node_lines,
    node_texts, nodes_run_on, page_lines, part_plain, parts_plain, plain, row_line, row_lines,
    term_lines, Block, DefinitionItem, Inline, ListItem, Node, TableCellContent, TableRow, Text,
    TextOrInline,
};
use crate::text;
use crate::text::{decimal, join, lines, occurs, occurs_at, trimmed, trimmed_end};
use crate::text_laws::{
    is_blank, law_blank_text_is_trimmed_away, lemma_joined_occurs, lemma_not_blank, lemma_occurs_in,
};

verus! {

// ---------------------------------------------------------------------------------------------
// Where a text stands
// ---------------------------------------------------------------------------------------------
/// Whether a text is a piece of running text: one of its texts, the description of an image, or a
/// piece of the text of a link.
pub open spec fn part_holds(part: TextOrInline, t: Seq<char>) -> bool
    decreases part, 0nat,
{
    match part {
        TextOrInline::Text(s) => s@ == t,
        TextOrInline::Inline(Inline::Image { alt_text }) => alt_text@ == t,
        TextOrInline::Inline(Inline::Link { text }) => parts_hold(text.parts@, t),
        _ => false,
    }
}

pub open spec fn parts_hold(parts: Seq<TextOrInline>, t: Seq<char>) -> bool
    decreases parts, 1nat,
{
    exists|i: int| 0 <= i < parts.len() && part_holds(#[trigger] parts[i], t)
}

/// Whether a text is a piece of running text.
pub open spec fn holds(running: Text, t: Seq<char>) -> bool {
    parts_hold(running.parts@, t)
}

/// Whether a text stands in a block, however deep: as a piece of its running text, as its code, or in a
/// block within it.
pub open spec fn block_holds(block: Block, t: Seq<char>) -> bool
    decreases block, 0nat,
{
    match block {
        Block::Paragraph { content } => holds(content, t),
        Block::Heading { content } => holds(content, t),
        Block::CodeBlock { code } => code@ == t,
        Block::Quote { nodes } => nodes_hold(nodes@, t),
        Block::EpubBlock { nodes } => nodes_hold(nodes@, t),
        Block::List { items } => items_hold(items@, t),
        Block::Table { header, rows } => (match header {
            Some(row) => cells_hold(row.cells@, t),
            None => false,
        }) || rows_hold(rows@, t),
        Block::DefinitionList { definitions } => terms_hold(definitions@, t),
        Block::Other => false,
    }
}

pub open spec fn nodes_hold(nodes: Seq<Node>, t: Seq<char>) -> bool
    decreases nodes, 1nat,
{
    exists|i: int| 0 <= i < nodes.len() && block_holds((#[trigger] nodes[i]).block, t)
}

pub open spec fn items_hold(items: Seq<ListItem>, t: Seq<char>) -> bool
    decreases items, 1nat,
{
    exists|i: int| 0 <= i < items.len() && nodes_hold((#[trigger] items[i]).content@, t)
}

pub open spec fn cells_hold(cells: Seq<TableCellContent>, t: Seq<char>) -> bool
    decreases cells, 1nat,
{
    exists|i: int|
        0 <= i < cells.len() && match #[trigger] cells[i] {
            TableCellContent::Simple(running) => holds(running, t),
            TableCellContent::Rich(nodes) => nodes_hold(nodes@, t),
        }
}

pub open spec fn rows_hold(rows: Seq<TableRow>, t: Seq<char>) -> bool
    decreases rows, 1nat,
{
    exists|i: int| 0 <= i < rows.len() && cells_hold((#[trigger] rows[i]).cells@, t)
}

pub open spec fn terms_hold(items: Seq<DefinitionItem>, t: Seq<char>) -> bool
    decreases items, 1nat,
{
    exists|i: int|
        0 <= i < items.len() && (holds((#[trigger] items[i]).term, t) || definitions_hold(
            items[i].definitions@,
            t,
        ))
}

pub open spec fn definitions_hold(defs: Seq<Vec<Node>>, t: Seq<char>) -> bool
    decreases defs, 1nat,
{
    exists|i: int| 0 <= i < defs.len() && nodes_hold((#[trigger] defs[i])@, t)
}

/// Whether a text stands in one of the lines.
pub open spec fn found(l: Seq<(Seq<char>, usize)>, t: Seq<char>) -> bool {
    exists|i: int| 0 <= i < l.len() && occurs((#[trigger] l[i]).0, t)
}

// ---------------------------------------------------------------------------------------------
// No text is lost
// ---------------------------------------------------------------------------------------------
proof fn lemma_part_occurs(part: TextOrInline, t: Seq<char>)
    requires
        part_holds(part, t),
    ensures
        occurs(part_plain(part), t),
    decreases part, 0nat,
{
    match part {
        TextOrInline::Inline(Inline::Link { text }) => {
            lemma_parts_occur(text.parts@, t);
        },
        _ => {
            assert(t.subrange(0, t.len() as int) =~= t);
            assert(occurs_at(part_plain(part), t, 0));
        },
    }
}

proof fn lemma_parts_occur(parts: Seq<TextOrInline>, t: Seq<char>)
    requires
        parts_hold(parts, t),
    ensures
        occurs(parts_plain(parts, parts.len()), t),
    decreases parts, 1nat,
{
    let i = choose|i: int| 0 <= i < parts.len() && part_holds(#[trigger] parts[i], t);
    lemma_part_occurs(parts[i], t);
    lemma_parts_keep(parts, i, parts.len(), t);
}

proof fn lemma_parts_keep(parts: Seq<TextOrInline>, i: int, n: nat, t: Seq<char>)
    requires
        0 <= i < n <= parts.len(),
        occurs(part_plain(parts[i]), t),
    ensures
        occurs(parts_plain(parts, n), t),
    decreases n,
{
    let e = Seq::<char>::empty();
    let before = parts_plain(parts, (n - 1) as nat);
    let own = part_plain(parts[n - 1]);
    if i < n - 1 {
        lemma_parts_keep(parts, i, (n - 1) as nat, t);
        lemma_occurs_in(e, before, own, t);
        assert(e + before + own =~= parts_plain(parts, n));
    } else {
        lemma_occurs_in(before, own, e, t);
        assert(before + own + e =~= parts_plain(parts, n));
    }
}

proof fn lemma_found_in(a: Seq<(Seq<char>, usize)>, b: Seq<(Seq<char>, usize)>, t: Seq<char>)
    requires
        found(a, t) || found(b, t),
    ensures
        found(a + b, t),
{
    let all = a + b;
    if found(a, t) {
        let i = choose|i: int| 0 <= i < a.len() && occurs((#[trigger] a[i]).0, t);
        assert(all[i] == a[i]);
    } else {
        let i = choose|i: int| 0 <= i < b.len() && occurs((#[trigger] b[i]).0, t);
        assert(all[a.len() + i] == b[i]);
    }
}

proof fn lemma_running_found(running: Text, t: Seq<char>, index: usize)
    requires
        holds(running, t),
        trimmed(t).len() > 0,
    ensures
        found(line_unless_blank(plain(running), index), t),
        occurs(plain(running), t),
{
    lemma_parts_occur(running.parts@, t);
    lemma_not_blank(plain(running), t);
    assert(line_unless_blank(plain(running), index)[0].0 == plain(running));
}

proof fn lemma_nodes_found(nodes: Seq<Node>, n: nat, i: int, t: Seq<char>, index: usize)
    requires
        0 <= i < n <= nodes.len(),
        block_holds(nodes[i].block, t),
        trimmed(t).len() > 0,
    ensures
        found(node_lines(nodes, n, index), t),
    decreases nodes, n,
{
    if i < n - 1 {
        lemma_nodes_found(nodes, (n - 1) as nat, i, t, index);
    } else {
        law_no_text_is_lost(nodes[i].block, t, index);
    }
    lemma_found_in(
        node_lines(nodes, (n - 1) as nat, index),
        block_lines(nodes[n - 1].block, index),
        t,
    );
}

proof fn lemma_all_nodes_found(nodes: Seq<Node>, t: Seq<char>, index: usize)
    requires
        nodes_hold(nodes, t),
        trimmed(t).len() > 0,
    ensures
        found(node_lines(nodes, nodes.len(), index), t),
    decreases nodes, nodes.len() + 1,
{
    let i = choose|i: int| 0 <= i < nodes.len() && block_holds((#[trigger] nodes[i]).block, t);
    lemma_nodes_found(nodes, nodes.len(), i, t, index);
}

proof fn lemma_items_found(items: Seq<ListItem>, n: nat, i: int, t: Seq<char>, index: usize)
    requires
        0 <= i < n <= items.len(),
        nodes_hold(items[i].content@, t),
        trimmed(t).len() > 0,
    ensures
        found(item_lines(items, n, index), t),
    decreases items, n,
{
    if i < n - 1 {
        lemma_items_found(items, (n - 1) as nat, i, t, index);
    } else {
        lemma_all_nodes_found(items[i].content@, t, index);
    }
    lemma_found_in(
        item_lines(items, (n - 1) as nat, index),
        node_lines(items[n - 1].content@, items[n - 1].content@.len(), index),
        t,
    );
}

proof fn lemma_cells_found(cells: Seq<TableCellContent>, n: nat, i: int, t: Seq<char>, index: usize)
    requires
        0 <= i < n <= cells.len(),
        cells[i] matches TableCellContent::Rich(nodes) && nodes_hold(nodes@, t),
        trimmed(t).len() > 0,
    ensures
        found(cell_lines(cells, n, index), t),
    decreases cells, n,
{
    let own = match cells[n - 1] {
        TableCellContent::Simple(_) => Seq::empty(),
        TableCellContent::Rich(nodes) => node_lines(nodes@, nodes@.len(), index),
    };
    if i < n - 1 {
        lemma_cells_found(cells, (n - 1) as nat, i, t, index);
    } else {
        if let TableCellContent::Rich(nodes) = cells[i] {
            lemma_all_nodes_found(nodes@, t, index);
        }
    }
    lemma_found_in(cell_lines(cells, (n - 1) as nat, index), own, t);
}

proof fn lemma_row_found(cells: Seq<TableCellContent>, t: Seq<char>, index: usize)
    requires
        cells_hold(cells, t),
        trimmed(t).len() > 0,
    ensures
        found(cell_lines(cells, cells.len(), index) + row_line(cells, index), t),
    decreases cells, cells.len() + 1,
{
    let i = choose|i: int|
        0 <= i < cells.len() && match #[trigger] cells[i] {
            TableCellContent::Simple(running) => holds(running, t),
            TableCellContent::Rich(nodes) => nodes_hold(nodes@, t),
        };
    match cells[i] {
        TableCellContent::Simple(running) => {
            lemma_parts_occur(running.parts@, t);
            let words = cells.map_values(|c: TableCellContent| cell_text(c));
            assert(words[i] == plain(running));
            lemma_joined_occurs(words, words.len(), i, t);
            assert(row_line(cells, index)[0].0 == join(words));
            assert(found(row_line(cells, index), t));
        },
        TableCellContent::Rich(nodes) => {
            lemma_cells_found(cells, cells.len(), i, t, index);
        },
    }
    lemma_found_in(cell_lines(cells, cells.len(), index), row_line(cells, index), t);
}

proof fn lemma_rows_found(rows: Seq<TableRow>, n: nat, i: int, t: Seq<char>, index: usize)
    requires
        0 <= i < n <= rows.len(),
        cells_hold(rows[i].cells@, t),
        trimmed(t).len() > 0,
    ensures
        found(row_lines(rows, n, index), t),
    decreases rows, n,
{
    if i < n - 1 {
        lemma_rows_found(rows, (n - 1) as nat, i, t, index);
    } else {
        lemma_row_found(rows[i].cells@, t, index);
    }
    lemma_found_in(
        row_lines(rows, (n - 1) as nat, index),
        cell_lines(rows[n - 1].cells@, rows[n - 1].cells@.len(), index) + row_line(
            rows[n - 1].cells@,
            index,
        ),
        t,
    );
}

proof fn lemma_definitions_found(defs: Seq<Vec<Node>>, n: nat, i: int, t: Seq<char>, index: usize)
    requires
        0 <= i < n <= defs.len(),
        nodes_hold(defs[i]@, t),
        trimmed(t).len() > 0,
    ensures
        found(definition_lines(defs, n, index), t),
    decreases defs, n,
{
    if i < n - 1 {
        lemma_definitions_found(defs, (n - 1) as nat, i, t, index);
    } else {
        lemma_all_nodes_found(defs[i]@, t, index);
    }
    lemma_found_in(
        definition_lines(defs, (n - 1) as nat, index),
        node_lines(defs[n - 1]@, defs[n - 1]@.len(), index),
        t,
    );
}

proof fn lemma_terms_found(items: Seq<DefinitionItem>, n: nat, i: int, t: Seq<char>, index: usize)
    requires
        0 <= i < n <= items.len(),
        holds(items[i].term, t) || definitions_hold(items[i].definitions@, t),
        trimmed(t).len() > 0,
    ensures
        found(term_lines(items, n, index), t),
    decreases items, n,
{
    let item = items[n - 1];
    let head = seq![(plain(item.term), index)];
    let defs = definition_lines(item.definitions@, item.definitions@.len(), index);
    if i < n - 1 {
        lemma_terms_found(items, (n - 1) as nat, i, t, index);
    } else {
        if holds(item.term, t) {
            lemma_parts_occur(item.term.parts@, t);
            assert(head[0].0 == plain(item.term));
            assert(found(head, t));
        } else {
            let d = item.definitions@;
            let k = choose|k: int| 0 <= k < d.len() && nodes_hold((#[trigger] d[k])@, t);
            lemma_definitions_found(d, d.len(), k, t, index);
        }
        lemma_found_in(head, defs, t);
    }
    lemma_found_in(term_lines(items, (n - 1) as nat, index), head + defs, t);
}

/// No text is lost: every text that stands in a block, however deep, and is not blank stands in one of
/// the lines of the block.
pub proof fn law_no_text_is_lost(block: Block, t: Seq<char>, index: usize)
    requires
        block_holds(block, t),
        trimmed(t).len() > 0,
    ensures
        found(block_lines(block, index), t),
    decreases block, 0nat,
{
    match block {
        Block::Paragraph { content } => lemma_running_found(content, t, index),
        Block::Heading { content } => lemma_running_found(content, t, index),
        Block::CodeBlock { code } => {
            assert(t.subrange(0, t.len() as int) =~= t);
            assert(occurs_at(t, t, 0));
            assert(block_lines(block, index)[0].0 == t);
        },
        Block::Quote { nodes } => lemma_all_nodes_found(nodes@, t, index),
        Block::EpubBlock { nodes } => lemma_all_nodes_found(nodes@, t, index),
        Block::List { items } => {
            let s = items@;
            let i = choose|i: int| 0 <= i < s.len() && nodes_hold((#[trigger] s[i]).content@, t);
            lemma_items_found(s, s.len(), i, t, index);
        },
        Block::Table { header, rows } => {
            let head = match header {
                Some(row) => cell_lines(row.cells@, row.cells@.len(), index) + row_line(
                    row.cells@,
                    index,
                ),
                None => Seq::empty(),
            };
            if let Some(row) = header {
                if cells_hold(row.cells@, t) {
                    lemma_row_found(row.cells@, t, index);
                }
            }
            let s = rows@;
            if rows_hold(s, t) {
                let i = choose|i: int| 0 <= i < s.len() && cells_hold((#[trigger] s[i]).cells@, t);
                lemma_rows_found(s, s.len(), i, t, index);
            }
            lemma_found_in(head, row_lines(s, s.len(), index), t);
        },
        Block::DefinitionList { definitions } => {
            let s = definitions@;
            let i = choose|i: int|
                0 <= i < s.len() && (holds((#[trigger] s[i]).term, t) || definitions_hold(
                    s[i].definitions@,
                    t,
                ));
            lemma_terms_found(s, s.len(), i, t, index);
        },
        Block::Other => {},
    }
}

/// A text that stands in a chapter stands in one of its lines, and that line names the block in which
/// it stands.
pub proof fn law_text_is_found_in_its_block(blocks: Seq<Node>, i: int, n: nat, t: Seq<char>)
    requires
        0 <= i < n <= blocks.len(),
        blocks.len() <= usize::MAX,
        block_holds(blocks[i].block, t),
        trimmed(t).len() > 0,
    ensures
        exists|k: int|
            0 <= k < document_lines(blocks, n).len() && occurs(
                (#[trigger] document_lines(blocks, n)[k]).0,
                t,
            ) && document_lines(blocks, n)[k].1 == i,
    decreases n,
{
    let before = document_lines(blocks, (n - 1) as nat);
    let own = block_lines(blocks[n - 1].block, (n - 1) as usize);
    let all = document_lines(blocks, n);
    if i < n - 1 {
        law_text_is_found_in_its_block(blocks, i, (n - 1) as nat, t);
        let k = choose|k: int|
            0 <= k < before.len() && occurs((#[trigger] before[k]).0, t) && before[k].1 == i;
        assert(all[k] == before[k]);
    } else {
        law_no_text_is_lost(blocks[i].block, t, i as usize);
        law_lines_name_their_node(blocks[i].block, i as usize);
        let k = choose|k: int| 0 <= k < own.len() && occurs((#[trigger] own[k]).0, t);
        assert(all[before.len() + k] == own[k]);
    }
}

// ---------------------------------------------------------------------------------------------
// No text is made up
// ---------------------------------------------------------------------------------------------
/// Running text is its pieces one behind the other: texts as they are, the description of an image, the
/// text of a link, and a space for the end of a line; nothing stands for anything else.
pub proof fn law_running_text_is_its_pieces(
    before: Seq<TextOrInline>,
    s: String,
    link: Text,
    n: nat,
)
    requires
        n == before.len(),
    ensures
        parts_plain(Seq::empty(), 0) == Seq::<char>::empty(),
        parts_plain(before.push(TextOrInline::Text(s)), n + 1) == parts_plain(before, n) + s@,
        parts_plain(
            before.push(TextOrInline::Inline(Inline::Image { alt_text: s })),
            n + 1,
        ) == parts_plain(before, n) + s@,
        parts_plain(
            before.push(TextOrInline::Inline(Inline::Link { text: link })),
            n + 1,
        ) == parts_plain(before, n) + plain(link),
        parts_plain(before.push(TextOrInline::Inline(Inline::LineBreak)), n + 1) == parts_plain(
            before,
            n,
        ) + seq![' '],
        parts_plain(before.push(TextOrInline::Inline(Inline::Other)), n + 1) == parts_plain(
            before,
            n,
        ),
{
    let a = TextOrInline::Text(s);
    let b = TextOrInline::Inline(Inline::Image { alt_text: s });
    let c = TextOrInline::Inline(Inline::Link { text: link });
    let d = TextOrInline::Inline(Inline::LineBreak);
    let e = TextOrInline::Inline(Inline::Other);
    lemma_parts_push(before, a);
    lemma_parts_push(before, b);
    lemma_parts_push(before, c);
    lemma_parts_push(before, d);
    lemma_parts_push(before, e);
    assert(part_plain(c) == plain(link));
    assert(parts_plain(before, n) + Seq::<char>::empty() =~= parts_plain(before, n));
}

proof fn lemma_parts_push(before: Seq<TextOrInline>, last: TextOrInline)
    ensures
        parts_plain(before.push(last), before.len() + 1) == parts_plain(before, before.len())
            + part_plain(last),
{
    lemma_parts_prefix(before, last, before.len());
    assert(before.push(last)[before.len() as int] == last);
}

proof fn lemma_parts_prefix(before: Seq<TextOrInline>, last: TextOrInline, n: nat)
    requires
        n <= before.len(),
    ensures
        parts_plain(before.push(last), n) == parts_plain(before, n),
    decreases n,
{
    if n > 0 {
        lemma_parts_prefix(before, last, (n - 1) as nat);
    }
}

/// A paragraph and a heading are one line, their running text, unless it is blank; code is one line as
/// it is written; a block without text has no line; and a quote or another block of blocks has the
/// lines of the blocks within it, in their order.
pub proof fn law_lines_of_each_kind(
    content: Text,
    code: String,
    nodes: Vec<Node>,
    before: Seq<Node>,
    last: Node,
    index: usize,
)
    ensures
        ({
            let line = seq![(plain(content), index)];
            let none = Seq::<(Seq<char>, usize)>::empty();
            let shown = !is_blank(plain(content));
            &&& shown ==> block_lines(Block::Paragraph { content }, index) == line
            &&& shown ==> block_lines(Block::Heading { content }, index) == line
            &&& !shown ==> block_lines(Block::Paragraph { content }, index) == none
            &&& !shown ==> block_lines(Block::Heading { content }, index) == none
            &&& block_lines(Block::CodeBlock { code }, index) == seq![(code@, index)]
            &&& block_lines(Block::Other, index) == none
            &&& nodes@ == before.push(last) ==> block_lines(Block::Quote { nodes }, index)
                == node_lines(before, before.len(), index) + block_lines(last.block, index)
            &&& nodes@ == before.push(last) ==> block_lines(Block::EpubBlock { nodes }, index)
                == node_lines(before, before.len(), index) + block_lines(last.block, index)
            &&& nodes@.len() == 0 ==> block_lines(Block::Quote { nodes }, index) == none
        }),
{
    law_blank_text_is_trimmed_away(plain(content));
    lemma_nodes_prefix(before, last, before.len(), index);
}

proof fn lemma_nodes_prefix(before: Seq<Node>, last: Node, n: nat, index: usize)
    requires
        n <= before.len(),
    ensures
        node_lines(before.push(last), n, index) == node_lines(before, n, index),
        node_texts(before.push(last), n) == node_texts(before, n),
    decreases n,
{
    if n > 0 {
        lemma_nodes_prefix(before, last, (n - 1) as nat, index);
    }
}

/// A row of a table is one line, the texts of its cells with a space between each two; a cell with
/// blocks in it has their lines besides, before the line of its row.
pub proof fn law_line_of_a_row(a: Text, b: Text, cells: Seq<TableCellContent>, index: usize)
    requires
        cells == seq![TableCellContent::Simple(a), TableCellContent::Simple(b)],
    ensures
        row_line(cells, index) == seq![(plain(a) + seq![' '] + plain(b), index)],
        cell_lines(cells, 2, index).len() == 0,
        row_line(Seq::empty(), index).len() == 0,
{
    let words = cells.map_values(|c: TableCellContent| cell_text(c));
    assert(words =~= seq![plain(a), plain(b)]);
    reveal_with_fuel(crate::text::joined, 3);
    reveal_with_fuel(cell_lines, 3);
}

/// The text of a node on one line: running text and code as they are, and the texts of the nodes of a
/// quote with a space between each two.
pub proof fn law_text_of_each_kind(
    content: Text,
    code: String,
    nodes: Vec<Node>,
    before: Seq<Node>,
    last: Node,
)
    ensures
        block_text(Block::Paragraph { content }) == plain(content),
        block_text(Block::Heading { content }) == plain(content),
        block_text(Block::CodeBlock { code }) == code@,
        nodes@ == seq![last] ==> block_text(Block::Quote { nodes }) == block_text(last.block),
        nodes@ == before.push(last) && before.len() > 0 ==> block_text(Block::Quote { nodes })
            == join(node_texts(before, before.len())) + seq![' '] + block_text(last.block),
{
    if nodes@ == before.push(last) {
        lemma_nodes_prefix(before, last, before.len(), 0);
        lemma_node_texts_len(before, before.len());
        crate::text_laws::law_joined_texts(
            node_texts(before, before.len()),
            block_text(last.block),
        );
    }
    if nodes@ == seq![last] {
        reveal_with_fuel(node_texts, 2);
        crate::text_laws::law_joined_texts(Seq::empty(), block_text(last.block));
        assert(node_texts(nodes@, 1) =~= seq![block_text(last.block)]);
    }
}

proof fn lemma_node_texts_len(nodes: Seq<Node>, n: nat)
    requires
        n <= nodes.len(),
    ensures
        node_texts(nodes, n).len() == n,
    decreases n,
{
    if n > 0 {
        lemma_node_texts_len(nodes, (n - 1) as nat);
    }
}

/// A chapter goes by its title; without one, by its number counted from one.
pub proof fn law_chapters_have_titles(index: usize, title: Seq<char>)
    ensures
        chapter_title(index, Some(title)) == title,
        chapter_title(index, None) == "Chapter "@ + decimal((index + 1) as nat),
{
}

// ---------------------------------------------------------------------------------------------
// Pages of lines
// ---------------------------------------------------------------------------------------------
/// The lines of a page are its lines that are not blank, as they are, each with its number among all,
/// in their order.
pub proof fn law_lines_of_a_page(s: Seq<Seq<char>>, n: nat)
    requires
        n <= s.len(),
        s.len() <= usize::MAX,
    ensures
        forall|i: int|
            0 <= i < n && !is_blank(#[trigger] s[i]) ==> page_lines(s, n).contains((s[i], i as usize)),
        forall|k: int|
            0 <= k < page_lines(s, n).len() ==> {
                let l = #[trigger] page_lines(s, n)[k];
                l.1 < n && l.0 == s[l.1 as int] && !is_blank(l.0)
            },
        forall|j: int, k: int|
            0 <= j < k < page_lines(s, n).len() ==> (#[trigger] page_lines(s, n)[j]).1 < (
            #[trigger] page_lines(s, n)[k]).1,
    decreases n,
{
    if n > 0 {
        law_lines_of_a_page(s, (n - 1) as nat);
        law_blank_text_is_trimmed_away(s[n - 1]);
        let before = page_lines(s, (n - 1) as nat);
        let all = page_lines(s, n);
        assert forall|i: int| 0 <= i < n && !is_blank(#[trigger] s[i]) implies all.contains(
            (s[i], i as usize),
        ) by {
            if i < n - 1 {
                assert(before.contains((s[i], i as usize)));
                let k = choose|k: int| 0 <= k < before.len() && before[k] == (s[i], i as usize);
                assert(all[k] == before[k]);
            } else {
                assert(all[before.len() as int] == (s[i], i as usize));
            }
        }
    }
}

/// The lines of a DjVu page are those with bounds as long as one of them is not blank; else those of the
/// text layer, without white space at their ends.
pub proof fn law_djvu_pages_fall_back_to_their_layer(bounded: Seq<Seq<char>>, layer: Seq<char>, i: int)
    requires
        bounded.len() <= usize::MAX,
        lines(layer).len() <= usize::MAX,
    ensures
        0 <= i < bounded.len() && !is_blank(bounded[i]) ==> djvu_lines(bounded, Some(layer))
            == page_lines(bounded, bounded.len()),
        (forall|k: int| 0 <= k < bounded.len() ==> is_blank(#[trigger] bounded[k])) && 0 <= i < lines(
            layer,
        ).len() && !is_blank(lines(layer)[i]) ==> djvu_lines(bounded, Some(layer)).contains(
            (trimmed_end(lines(layer)[i]), i as usize),
        ),
{
    law_lines_of_a_page(bounded, bounded.len());
    let found = page_lines(bounded, bounded.len());
    if 0 <= i < bounded.len() && !is_blank(bounded[i]) {
        assert(found.contains((bounded[i], i as usize)));
    }
    if forall|k: int| 0 <= k < bounded.len() ==> is_blank(#[trigger] bounded[k]) {
        if found.len() > 0 {
            let l = found[0];
            assert(is_blank(bounded[l.1 as int]));
        }
        if 0 <= i < lines(layer).len() && !is_blank(lines(layer)[i]) {
            lemma_layer(lines(layer), lines(layer).len(), i);
        }
    }
}

proof fn lemma_layer(s: Seq<Seq<char>>, n: nat, i: int)
    requires
        0 <= i < n <= s.len(),
        n <= usize::MAX,
        !is_blank(s[i]),
    ensures
        layer_lines(s, n).contains((trimmed_end(s[i]), i as usize)),
    decreases n,
{
    let before = layer_lines(s, (n - 1) as nat);
    let all = layer_lines(s, n);
    let l = (trimmed_end(s[i]), i as usize);
    if i < n - 1 {
        lemma_layer(s, (n - 1) as nat, i);
        let k = choose|k: int| 0 <= k < before.len() && before[k] == l;
        assert(all[k] == l);
    } else {
        law_blank_text_is_trimmed_away(s[i]);
        assert(all[before.len() as int] == l);
    }
}

/// The text of a cell is that of its blocks, all of them, one behind the other.
pub proof fn law_text_of_a_cell(nodes: Vec<Node>, before: Seq<Node>, last: Node)
    requires
        nodes@ == before.push(last),
    ensures
        cell_text(TableCellContent::Rich(nodes)) == nodes_run_on(before, before.len()) + block_text(
            last.block,
        ),
        nodes_run_on(Seq::empty(), 0) =~= Seq::empty(),
{
    lemma_run_on_before(before, last, before.len());
}

proof fn lemma_run_on_before(nodes: Seq<Node>, last: Node, n: nat)
    requires
        n <= nodes.len(),
    ensures
        nodes_run_on(nodes.push(last), n) == nodes_run_on(nodes, n),
    decreases n,
{
    if n > 0 {
        lemma_run_on_before(nodes, last, (n - 1) as nat);
        assert(nodes.push(last)[n - 1] == nodes[n - 1]);
    }
}

} // verus!
