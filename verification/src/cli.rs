use crate::command::Command;
use vstd::prelude::*;

verus! {

/// The caller's request: the input paths and the four independent metric
/// flags, each false unless asked for.
#[derive(Debug, PartialEq)]
pub struct Cli {
    pub files: Vec<String>,
    pub bytes: bool,
    pub chars: bool,
    pub words: bool,
    pub lines: bool,
}

/// Selection resolution: a request with no flag set at all becomes the
/// conventional default report of lines, words and characters (bytes stays
/// off); a request with any flag set is kept as it is.
pub open spec fn spec_resolve(c: Cli) -> Cli {
    if !(c.lines || c.words || c.chars || c.bytes) {
        Cli { lines: true, words: true, chars: true, ..c }
    } else {
        c
    }
}

/// The metrics a resolved request selects, in canonical order.
pub open spec fn spec_commands(c: Cli) -> Seq<Command> {
    (if c.lines {
        seq![Command::CountLines]
    } else {
        Seq::empty()
    }) + (if c.words {
        seq![Command::CountWords]
    } else {
        Seq::empty()
    }) + (if c.chars {
        seq![Command::CountChars]
    } else {
        Seq::empty()
    }) + (if c.bytes {
        seq![Command::CountBytes]
    } else {
        Seq::empty()
    })
}

/// Resolving is idempotent: a request that has already been resolved
/// resolves to itself, so the all-false request yields the same default
/// selection however often it is resolved.
pub proof fn lemma_resolve_idempotent(c: Cli)
    ensures
        spec_resolve(spec_resolve(c)) == spec_resolve(c),
{
}

/// A resolved request always selects at least one metric.
pub proof fn lemma_resolve_nonempty(c: Cli)
    ensures
        spec_commands(spec_resolve(c)).len() > 0,
{
}

impl Cli {
    /// Applies selection resolution once, before any input is read.
    pub fn fix_no_commands(self) -> (r: Cli)
        ensures
            r == spec_resolve(self),
    {
        let has_any_commands = self.lines || self.words || self.chars || self.bytes;

        let out = if !has_any_commands {
            Cli { lines: true, words: true, chars: true, ..self }
        } else {
            self
        };

        out
    }

    /// The selected metrics as a list in canonical order: lines, words,
    /// characters, bytes.
    pub fn commands(&self) -> (r: Vec<Command>)
        ensures
            r@ == spec_commands(*self),
    {
        let mut out: Vec<Command> = Vec::new();

        if self.lines {
            out.push(Command::CountLines);
        }
        if self.words {
            out.push(Command::CountWords);
        }
        if self.chars {
            out.push(Command::CountChars);
        }
        if self.bytes {
            out.push(Command::CountBytes);
        }

        proof {
            assert(out@ =~= spec_commands(*self));
        }
        out
    }
}

} // verus!
