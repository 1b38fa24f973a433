//! The state of the submission form, and what the presentation loop does to
//! it: attaching dropped files, building a submission, taking a result in,
//! and clearing.
use vstd::prelude::*;
use vstd::string::StringExecFns;
use crate::arguments::{build_arguments, invocation};
use crate::classify::{attachment_line, option_line};
use crate::execution::{after_take, ExecutionState};
use crate::text::{
    chars_of, has_no_newline, lemma_nonblank_trimmed_push, lemma_pieces_extend, lemma_trim_empty,
    lemma_trim_keeps_first, option_arguments, pieces, texts, trim,
};

verus! {

/// `block` with `line` added as a line of its own: a newline goes first
/// unless the block is empty or already ends in one.
pub open spec fn with_line(block: Seq<char>, line: Seq<char>) -> Seq<char> {
    if block.len() > 0 && block.last() != '\n' {
        block.push('\n') + line
    } else {
        block + line
    }
}

/// `block` with each of `lines` added in turn.
pub open spec fn with_lines(block: Seq<char>, lines: Seq<Seq<char>>) -> Seq<char>
    decreases lines.len(),
{
    if lines.len() == 0 {
        block
    } else {
        with_line(with_lines(block, lines.drop_last()), lines.last())
    }
}

/// The option lines that attach the files at `paths`, one per path, in order.
pub open spec fn attachment_lines(paths: Seq<Seq<char>>) -> Seq<Seq<char>> {
    paths.map_values(|p: Seq<char>| attachment_line(p))
}

/// The model selected when the form opens.
pub open spec fn default_model() -> Seq<char> {
    "gemini-2.5-flash-lite"@
}

/// Whether `s` is not empty and ends in a newline.
fn ends_with_newline(s: &str) -> (r: bool)
    ensures
        r == (s@.len() > 0 && s@.last() == '\n'),
{
    let v = chars_of(s);
    v.len() > 0 && v[v.len() - 1] == '\n'
}

/// What the user has entered in the form.
pub struct FormState {
    /// The prompt text, passed as the last argument.
    pub prompt: String,
    /// Free-form option lines, one argument per non-blank line.
    pub options: String,
    /// Pass `-c`.
    pub use_clipboard: bool,
    /// Pass `--browser-output`.
    pub browser_output: bool,
    /// Pass `-R`.
    pub resume: bool,
    /// The text shown as the tool's response.
    pub response: String,
    /// The model identifier passed with `--model`.
    pub model: String,
    /// The selected task, empty for none.
    pub task: String,
    /// The selected role, empty for none.
    pub role: String,
    /// The tasks that can be selected.
    pub tasks: Vec<String>,
    /// The roles that can be selected.
    pub roles: Vec<String>,
}

impl FormState {
    /// A fresh form offering `tasks` and `roles`: every text empty, every
    /// flag off, the default model selected.
    pub fn new(tasks: Vec<String>, roles: Vec<String>) -> (r: Self)
        ensures
            r.prompt@.len() == 0,
            r.options@.len() == 0,
            r.response@.len() == 0,
            r.task@.len() == 0,
            r.role@.len() == 0,
            !r.use_clipboard,
            !r.browser_output,
            !r.resume,
            r.model@ == default_model(),
            r.tasks == tasks,
            r.roles == roles,
    {
        FormState {
            prompt: String::new(),
            options: String::new(),
            use_clipboard: false,
            browser_output: false,
            resume: false,
            response: String::new(),
            model: String::from_str("gemini-2.5-flash-lite"),
            task: String::new(),
            role: String::new(),
            tasks,
            roles,
        }
    }

    /// Empties the prompt, the options and the response, and turns every
    /// flag off; the model and the selections stay.
    pub fn clear(&mut self)
        ensures
            final(self).prompt@.len() == 0,
            final(self).options@.len() == 0,
            final(self).response@.len() == 0,
            !final(self).use_clipboard,
            !final(self).browser_output,
            !final(self).resume,
            final(self).model == old(self).model,
            final(self).task == old(self).task,
            final(self).role == old(self).role,
            final(self).tasks == old(self).tasks,
            final(self).roles == old(self).roles,
    {
        self.prompt = String::new();
        self.options = String::new();
        self.response = String::new();
        self.use_clipboard = false;
        self.browser_output = false;
        self.resume = false;
    }

    /// The argument vector for submitting the form, with `--record-audio`
    /// first when `record_audio` is set.
    pub fn arguments(&self, record_audio: bool) -> (r: Vec<String>)
        ensures
            texts(r@) == invocation(
                record_audio,
                self.use_clipboard,
                self.browser_output,
                self.resume,
                self.model@,
                self.options@,
                self.prompt@,
            ),
    {
        build_arguments(
            record_audio,
            self.use_clipboard,
            self.browser_output,
            self.resume,
            self.model.as_str(),
            self.options.as_str(),
            self.prompt.as_str(),
        )
    }

    /// Takes a delivered result, if any, into the response, and then turns
    /// resume on so that the next submission continues the conversation.
    /// Says whether a result was taken.
    pub fn receive(&mut self, state: &mut ExecutionState) -> (taken: bool)
        ensures
            final(state)@ == after_take(old(state)@).0,
            taken == old(state)@.pending is Some,
            taken ==> final(self).response@ == old(state)@.pending->0 && final(self).resume,
            !taken ==> final(self).response == old(self).response && final(self).resume
                == old(self).resume,
            final(self).prompt == old(self).prompt,
            final(self).options == old(self).options,
            final(self).model == old(self).model,
            final(self).use_clipboard == old(self).use_clipboard,
            final(self).browser_output == old(self).browser_output,
    {
        match state.take() {
            Some(result) => {
                self.response = result;
                self.resume = true;
                true
            },
            None => false,
        }
    }

    /// Adds `line` to the options block as a line of its own.
    pub fn append_option_line(&mut self, line: &str)
        ensures
            final(self).options@ == with_line(old(self).options@, line@),
            final(self).prompt == old(self).prompt,
            final(self).model == old(self).model,
    {
        if !self.options.as_str().is_empty() && !ends_with_newline(self.options.as_str()) {
            self.options.push('\n');
        }
        self.options.append(line);
        assert(self.options@ =~= with_line(old(self).options@, line@));
    }

    /// Attaches the files at `paths`, in order: one option line each,
    /// `-i<path>` for media and `-f<path>` otherwise.
    pub fn attach_files(&mut self, paths: &Vec<String>)
        ensures
            final(self).options@ == with_lines(old(self).options@, attachment_lines(texts(paths@))),
            final(self).prompt == old(self).prompt,
            final(self).model == old(self).model,
    {
        let mut i: usize = 0;
        while i < paths.len()
            invariant
                i <= paths.len(),
                self.options@ == with_lines(
                    old(self).options@,
                    attachment_lines(texts(paths@)).subrange(0, i as int),
                ),
                self.prompt == old(self).prompt,
                self.model == old(self).model,
            decreases paths.len() - i,
        {
            let line = option_line(paths[i].as_str());
            self.append_option_line(line.as_str());
            let ghost all = attachment_lines(texts(paths@));
            assert(all.subrange(0, i + 1).drop_last() =~= all.subrange(0, i as int));
            i += 1;
        }
        assert(attachment_lines(texts(paths@)).subrange(0, i as int) =~= attachment_lines(
            texts(paths@),
        ));
    }
}

/// Adding a line without a newline to the options block adds its trimmed
/// text as one more argument after the others, unless the line is blank.
pub proof fn lemma_with_line_arguments(block: Seq<char>, line: Seq<char>)
    requires
        has_no_newline(line),
    ensures
        option_arguments(with_line(block, line)) == (if trim(line).len() > 0 {
            option_arguments(block).push(trim(line))
        } else {
            option_arguments(block)
        }),
{
    let p = pieces(block);
    lemma_trim_empty();
    if block.len() > 0 && block.last() != '\n' {
        let b = block.push('\n');
        assert(b.drop_last() =~= block);
        assert(pieces(b) == p.push(Seq::<char>::empty()));
        lemma_pieces_extend(b, line);
        assert(Seq::<char>::empty() + line =~= line);
        assert(pieces(b + line) =~= p.push(line));
        lemma_nonblank_trimmed_push(p, line);
    } else {
        lemma_pieces_extend(block, line);
        let d = p.drop_last();
        if block.len() == 0 {
            assert(p == seq![Seq::<char>::empty()]);
        } else {
            assert(p == pieces(block.drop_last()).push(Seq::<char>::empty()));
        }
        assert(p.last() == Seq::<char>::empty());
        assert(p =~= d.push(Seq::<char>::empty()));
        assert(Seq::<char>::empty() + line =~= line);
        assert(pieces(block + line) =~= d.push(line));
        lemma_nonblank_trimmed_push(d, Seq::<char>::empty());
        lemma_nonblank_trimmed_push(d, line);
    }
}

/// Attaching files whose paths hold no newline adds one argument per file,
/// in order, after the arguments the options block already gave: the
/// file's option line, trimmed.
pub proof fn lemma_attached_files_become_arguments(block: Seq<char>, paths: Seq<Seq<char>>)
    requires
        forall|i: int| 0 <= i < paths.len() ==> has_no_newline(#[trigger] paths[i]),
    ensures
        option_arguments(with_lines(block, attachment_lines(paths))) == option_arguments(block)
            + attachment_lines(paths).map_values(|l: Seq<char>| trim(l)),
    decreases paths.len(),
{
    let lines = attachment_lines(paths);
    if paths.len() == 0 {
        assert(option_arguments(block) + lines.map_values(|l: Seq<char>| trim(l)) =~= option_arguments(
            block,
        ));
    } else {
        let front = paths.drop_last();
        assert(lines.drop_last() =~= attachment_lines(front));
        lemma_attached_files_become_arguments(block, front);
        let p = paths.last();
        let line = lines.last();
        reveal_strlit("-i");
        reveal_strlit("-f");
        assert(line[0] == '-');
        assert forall|i: int| 0 <= i < line.len() implies line[i] != '\n' by {
            if i >= 2 {
                assert(line[i] == p[i - 2]);
            }
        }
        lemma_trim_keeps_first(line);
        lemma_with_line_arguments(with_lines(block, attachment_lines(front)), line);
        assert(option_arguments(block) + lines.map_values(|l: Seq<char>| trim(l)) =~= (
        option_arguments(block) + attachment_lines(front).map_values(|l: Seq<char>| trim(l))).push(
            trim(line),
        ));
    }
}

/// Dropping the same files in any order attaches the same set of option
/// lines, one line per file.
pub proof fn lemma_attachment_order_irrelevant(a: Seq<Seq<char>>, b: Seq<Seq<char>>)
    requires
        a.to_set() == b.to_set(),
    ensures
        attachment_lines(a).to_set() == attachment_lines(b).to_set(),
        attachment_lines(a).len() == a.len(),
        attachment_lines(b).len() == b.len(),
{
    assert forall|x: Seq<char>| #[trigger]
        attachment_lines(a).to_set().contains(x) implies attachment_lines(b).to_set().contains(
        x,
    ) by {
        let i = choose|i: int| 0 <= i < a.len() && attachment_lines(a)[i] == x;
        assert(b.to_set().contains(a[i]));
        let j = choose|j: int| 0 <= j < b.len() && b[j] == a[i];
        assert(attachment_lines(b)[j] == x);
    }
    assert forall|x: Seq<char>| #[trigger]
        attachment_lines(b).to_set().contains(x) implies attachment_lines(a).to_set().contains(
        x,
    ) by {
        let j = choose|j: int| 0 <= j < b.len() && attachment_lines(b)[j] == x;
        assert(a.to_set().contains(b[j]));
        let i = choose|i: int| 0 <= i < a.len() && a[i] == b[j];
        assert(attachment_lines(a)[i] == x);
    }
    assert(attachment_lines(a).to_set() =~= attachment_lines(b).to_set());
}

} // verus!
