use crate::text::{
    chars_of, decimal, lines, prefixed_lines, push_decimal_wide, push_prefixed_lines, split_lines,
    texts,
};
use vstd::prelude::*;
use vstd::string::StringExecFns;

verus! {

/// Lines of a tool's output that are shown while it is collapsed.
pub const COLLAPSED_LINES: usize = 3;

/// One tool call's output for display purposes.
#[derive(Debug, PartialEq)]
pub struct ToolOutput {
    pub header: String,
    pub output: String,
    pub expanded: bool,
}

/// The mark under which the output of a tool is shown.
pub open spec fn output_mark() -> Seq<char> {
    "    \x1b[2m\u{23bf}\x1b[0m\n"@
}

/// The line that tells how many lines are folded away.
pub open spec fn folded_note(remaining: nat) -> Seq<char> {
    "     \x1b[2m\u{2026} +"@ + decimal(remaining) + " lines (ctrl+o to expand)\x1b[0m\n"@
}

/// What is shown of the output of a tool: the mark, and under it every
/// line where it is expanded or short, else the first three lines and the
/// number of the others.
pub open spec fn shown_output(output: Seq<char>, expanded: bool) -> Seq<char> {
    let ls = lines(output);
    if ls.len() == 0 {
        output_mark()
    } else if expanded || ls.len() <= COLLAPSED_LINES {
        output_mark() + prefixed_lines("     "@, ls)
    } else {
        output_mark() + prefixed_lines("     "@, ls.take(COLLAPSED_LINES as int)) + folded_note(
            (ls.len() - COLLAPSED_LINES) as nat,
        )
    }
}

impl ToolOutput {
    /// What is shown of this output.
    pub fn render(&self) -> (shown: String)
        ensures
            shown@ == shown_output(self.output@, self.expanded),
    {
        let mut shown = String::from_str("    \x1b[2m\u{23bf}\x1b[0m\n");
        let chars = chars_of(self.output.as_str());
        let ls = split_lines(&chars);
        assert(texts(ls@).len() == ls.len());
        if ls.len() == 0 {
            return shown;
        }
        if self.expanded || ls.len() <= COLLAPSED_LINES {
            push_prefixed_lines(&mut shown, "     ", &ls, 0, ls.len());
            assert(texts(ls@).subrange(0, ls.len() as int) =~= lines(self.output@));
        } else {
            push_prefixed_lines(&mut shown, "     ", &ls, 0, COLLAPSED_LINES);
            assert(texts(ls@).subrange(0, COLLAPSED_LINES as int) =~= lines(self.output@).take(
                COLLAPSED_LINES as int,
            ));
            shown.append("     \x1b[2m\u{2026} +");
            push_decimal_wide(&mut shown, (ls.len() - COLLAPSED_LINES) as u128);
            shown.append(" lines (ctrl+o to expand)\x1b[0m\n");
            assert(shown@ =~= shown_output(self.output@, self.expanded));
        }
        shown
    }
}

/// Stores recent tool outputs for the current turn.
#[derive(Debug, PartialEq)]
pub struct ToolOutputLog {
    pub entries: Vec<ToolOutput>,
}

impl ToolOutputLog {
    /// A log without entries.
    pub fn new() -> (log: ToolOutputLog)
        ensures
            log.entries@.len() == 0,
    {
        ToolOutputLog { entries: Vec::new() }
    }

    /// Adds the output of a tool call, collapsed.
    pub fn push(&mut self, header: String, output: String)
        ensures
            final(self).entries@ == old(self).entries@.push(
                ToolOutput { header, output, expanded: false },
            ),
    {
        self.entries.push(ToolOutput { header, output, expanded: false });
    }

    /// What is shown of the entry that was added last, if there is one.
    pub fn print_last(&self) -> (shown: Option<String>)
        ensures
            self.entries@.len() == 0 ==> shown is None,
            self.entries@.len() > 0 ==> (shown matches Some(text) && text@ == shown_output(
                self.entries@.last().output@,
                self.entries@.last().expanded,
            )),
    {
        let n = self.entries.len();
        if n == 0 {
            None
        } else {
            Some(self.entries[n - 1].render())
        }
    }

    /// Expands the entry that was added last, or collapses it where it is
    /// expanded; returns its header and what is then shown of it.
    pub fn toggle_last(&mut self) -> (shown: Option<(String, String)>)
        ensures
            final(self).entries@.len() == old(self).entries@.len(),
            old(self).entries@.len() == 0 ==> shown is None,
            old(self).entries@.len() > 0 ==> {
                &&& final(self).entries@.last().expanded == !old(self).entries@.last().expanded
                &&& final(self).entries@.last().header == old(self).entries@.last().header
                &&& final(self).entries@.last().output == old(self).entries@.last().output
                &&& final(self).entries@.drop_last() == old(self).entries@.drop_last()
                &&& shown matches Some(pair) && pair.0@ == "* "@ + old(self).entries@.last().header@
                    + "\n"@ && pair.1@ == shown_output(
                    old(self).entries@.last().output@,
                    !old(self).entries@.last().expanded,
                )
            },
    {
        let last = match self.entries.pop() {
            Some(entry) => entry,
            None => {
                return None;
            },
        };
        let entry = ToolOutput { header: last.header, output: last.output, expanded: !last.expanded };
        let mut line = String::from_str("* ");
        line.append(entry.header.as_str());
        line.append("\n");
        let shown = entry.render();
        self.entries.push(entry);
        assert(self.entries@.drop_last() =~= old(self).entries@.drop_last());
        Some((line, shown))
    }

    /// Forgets every entry.
    pub fn clear(&mut self)
        ensures
            final(self).entries@.len() == 0,
    {
        self.entries.clear();
    }
}

} // verus!
