//! The text under construction.
//!
//! A [`TsgenWriter`] only grows: its view is the sequence of the pieces written so far.
//! What the pieces look like on the page is the business of [`layout`].

use crate::text::{cat5, join_lines, joined, views};
use vstd::prelude::*;

verus! {

/// One piece of a text.
pub enum Piece {
    /// Characters of the current line.
    Text(Seq<char>),
    /// The end of the current line.
    Break,
    /// From here on lines start one level further to the right.
    In,
    /// From here on lines start one level further to the left.
    Out,
}

/// A text as far as it is laid out.
pub struct Page {
    /// The lines that have ended.
    pub lines: Seq<Seq<char>>,
    /// The line that has not.
    pub cur: Seq<char>,
    /// How many levels the lines are indented.
    pub level: nat,
}

/// The white space in front of a line.
pub open spec fn margin(level: nat) -> Seq<char>
    decreases level,
{
    if level == 0 {
        Seq::empty()
    } else {
        margin((level - 1) as nat) + "  "@
    }
}

/// The page after one more piece.
pub open spec fn typeset(page: Page, piece: Piece) -> Page {
    match piece {
        Piece::Text(s) => Page {
            cur: (if page.cur.len() == 0 {
                margin(page.level)
            } else {
                page.cur
            }) + s,
            ..page
        },
        Piece::Break => Page { lines: page.lines.push(page.cur), cur: Seq::empty(), ..page },
        Piece::In => Page { level: page.level + 1, ..page },
        Piece::Out => Page {
            level: if page.level == 0 {
                0
            } else {
                (page.level - 1) as nat
            },
            ..page
        },
    }
}

/// The page that the pieces of `doc` fill.
pub open spec fn page(doc: Seq<Piece>) -> Page
    decreases doc.len(),
{
    if doc.len() == 0 {
        Page { lines: Seq::empty(), cur: Seq::empty(), level: 0 }
    } else {
        typeset(page(doc.drop_last()), doc.last())
    }
}

/// The last piece is set on the page that those before it fill.
pub broadcast proof fn lemma_page_push(doc: Seq<Piece>, piece: Piece)
    ensures
        #[trigger] page(doc.push(piece)) == typeset(page(doc), piece),
{
    assert(doc.push(piece).drop_last() =~= doc);
}

/// The characters of the page that the pieces of `doc` fill.
pub open spec fn layout(doc: Seq<Piece>) -> Seq<char> {
    joined(page(doc).lines.push(page(doc).cur), "\n"@)
}

#[derive(Debug)]
enum Entry {
    Text(String),
    Break,
    In,
    Out,
}

impl Entry {
    spec fn piece(self) -> Piece {
        match self {
            Entry::Text(s) => Piece::Text(s@),
            Entry::Break => Piece::Break,
            Entry::In => Piece::In,
            Entry::Out => Piece::Out,
        }
    }
}

/// A TypeScript text under construction.
#[derive(Debug)]
pub struct TsgenWriter {
    entries: Vec<Entry>,
}

impl View for TsgenWriter {
    type V = Seq<Piece>;

    closed spec fn view(&self) -> Seq<Piece> {
        self.entries@.map_values(|e: Entry| e.piece())
    }
}

impl TsgenWriter {
    pub fn new() -> (w: Self)
        ensures
            w@ == Seq::<Piece>::empty(),
    {
        let w = TsgenWriter { entries: Vec::new() };
        assert(w@ =~= Seq::<Piece>::empty());
        w
    }

    fn push(&mut self, e: Entry)
        ensures
            final(self)@ == old(self)@.push(e.piece()),
    {
        self.entries.push(e);
        assert(self@ =~= old(self)@.push(e.piece()));
    }

    /// Continues the current line.
    pub fn write(&mut self, s: &str)
        ensures
            final(self)@ == old(self)@.push(Piece::Text(s@)),
    {
        self.push(Entry::Text(s.to_owned()));
    }

    /// Ends the current line.
    pub fn new_line(&mut self)
        ensures
            final(self)@ == old(self)@.push(Piece::Break),
    {
        self.push(Entry::Break);
    }

    /// Continues the current line and ends it.
    pub fn writeln(&mut self, s: &str)
        ensures
            final(self)@ == old(self)@.push(Piece::Text(s@)).push(Piece::Break),
    {
        self.write(s);
        self.new_line();
    }

    pub fn increase_indent(&mut self)
        ensures
            final(self)@ == old(self)@.push(Piece::In),
    {
        self.push(Entry::In);
    }

    pub fn decrease_indent(&mut self)
        ensures
            final(self)@ == old(self)@.push(Piece::Out),
    {
        self.push(Entry::Out);
    }

    /// Starts indented lines of their own.
    pub fn open_indent(&mut self)
        ensures
            final(self)@ == old(self)@.push(Piece::Break).push(Piece::In),
    {
        self.new_line();
        self.increase_indent();
    }

    /// Ends what [`TsgenWriter::open_indent`] started.
    pub fn close_indent(&mut self)
        ensures
            final(self)@ == old(self)@.push(Piece::Out).push(Piece::Break),
    {
        self.decrease_indent();
        self.new_line();
    }

    /// Starts indented lines between braces.
    pub fn open_short_block(&mut self)
        ensures
            final(self)@ == old(self)@.push(Piece::Text("{"@)).push(Piece::Break).push(Piece::In),
    {
        self.write("{");
        self.open_indent();
    }

    /// Ends what [`TsgenWriter::open_short_block`] started. The closing brace does not end
    /// its line.
    pub fn close_short_block(&mut self)
        ensures
            final(self)@ == old(self)@.push(Piece::Out).push(Piece::Break).push(Piece::Text("}"@)),
    {
        self.close_indent();
        self.write("}");
    }

    /// Writes the declaration of an exported constant.
    pub fn export_const(&mut self, name: &str, value: &str)
        ensures
            final(self)@ == old(self)@.push(
                Piece::Text("export const "@ + name@ + " = "@ + value@ + ";"@),
            ).push(Piece::Break),
    {
        let decl = cat5("export const ", name, " = ", value, ";");
        self.writeln(decl.as_str());
    }

    /// The text as it stands on the page.
    pub fn to_text(&self) -> (r: String)
        ensures
            r@ == layout(self@),
    {
        let ghost doc = self@;
        let mut lines: Vec<String> = Vec::new();
        let mut cur = String::new();
        let mut level: usize = 0;
        let mut i: usize = 0;
        assert(views(lines@) =~= Seq::empty());
        while i < self.entries.len()
            invariant
                i <= self.entries.len(),
                doc == self@,
                doc.len() == self.entries.len(),
                level <= i,
                page(doc.take(i as int)) == (Page {
                    lines: views(lines@),
                    cur: cur@,
                    level: level as nat,
                }),
            decreases self.entries.len() - i,
        {
            proof {
                assert(doc.take(i + 1).drop_last() == doc.take(i as int));
                assert(doc.take(i + 1).last() == self.entries[i as int].piece());
            }
            match &self.entries[i] {
                Entry::Text(s) => {
                    if cur.as_str().is_empty() {
                        cur = margin_text(level);
                    }
                    cur.append(s.as_str());
                },
                Entry::Break => {
                    let ghost before = lines@;
                    let ghost ended = cur;
                    lines.push(cur);
                    assert(views(lines@) =~= views(before).push(ended@));
                    cur = String::new();
                },
                Entry::In => {
                    level = level + 1;
                },
                Entry::Out => {
                    if level > 0 {
                        level = level - 1;
                    }
                },
            }
            i = i + 1;
        }
        assert(doc.take(doc.len() as int) == doc);
        let ghost before = lines@;
        let ghost ended = cur;
        lines.push(cur);
        assert(views(lines@) =~= views(before).push(ended@));
        join_lines(&lines)
    }
}

fn margin_text(level: usize) -> (r: String)
    ensures
        r@ == margin(level as nat),
{
    let mut r = String::new();
    let mut i: usize = 0;
    while i < level
        invariant
            i <= level,
            r@ == margin(i as nat),
        decreases level - i,
    {
        r.append("  ");
        i = i + 1;
    }
    r
}

} // verus!
