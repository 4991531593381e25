//! The options that are kept from one start of the program to the next.

use vstd::prelude::*;

use crate::model::{DiffOptions, ShowUntrackedFilesConfig};
use crate::string_utils::texts;

verus! {

/// How many commit messages are remembered.
pub const COMMIT_MSG_HISTORY_LENGTH: usize = 20;

/// What the options file holds.
#[derive(Debug)]
pub struct OptionsData {
    pub tab: usize,
    pub diff: DiffOptions,
    pub status_show_untracked: Option<ShowUntrackedFilesConfig>,
    pub commit_msgs: Vec<String>,
    pub diff_syntax_highlight: bool,
    pub diff_syntax_max_file_bytes: u64,
    pub diff_syntax_max_file_lines: usize,
}

/// Whether diffs are highlighted, where the options file does not say.
pub fn default_diff_syntax_highlight() -> (highlight: bool)
    ensures
        highlight,
{
    true
}

/// The largest file that is highlighted, where the options file does not say.
pub fn default_diff_syntax_max_file_bytes() -> (bytes: u64)
    ensures
        bytes == 524_288,
{
    524_288
}

/// The longest file that is highlighted, where the options file does not say.
pub fn default_diff_syntax_max_file_lines() -> (lines: usize)
    ensures
        lines == 10_000,
{
    10_000
}

impl OptionsData {
    /// The options before anything was changed.
    pub open spec fn is_default(self) -> bool {
        &&& self.tab == 0
        &&& self.diff == (DiffOptions { ignore_whitespace: false, context: 1, interhunk_lines: 0 })
        &&& self.status_show_untracked is None
        &&& self.commit_msgs@.len() == 0
        &&& self.diff_syntax_highlight
        &&& self.diff_syntax_max_file_bytes == 524_288
        &&& self.diff_syntax_max_file_lines == 10_000
    }
}

impl Default for OptionsData {
    fn default() -> (data: Self)
        ensures
            data.is_default(),
            data.tab == 0,
            !data.diff.ignore_whitespace,
            data.diff.context == 1,
            data.diff.interhunk_lines == 0,
            data.status_show_untracked is None,
            data.commit_msgs@.len() == 0,
            data.diff_syntax_highlight,
            data.diff_syntax_max_file_bytes == 524_288,
            data.diff_syntax_max_file_lines == 10_000,
    {
        OptionsData {
            tab: 0,
            diff: DiffOptions::default(),
            status_show_untracked: None,
            commit_msgs: Vec::new(),
            diff_syntax_highlight: default_diff_syntax_highlight(),
            diff_syntax_max_file_bytes: default_diff_syntax_max_file_bytes(),
            diff_syntax_max_file_lines: default_diff_syntax_max_file_lines(),
        }
    }
}

/// A counter one step up or down, which stays within its range.
pub open spec fn stepped(value: u32, increase: bool) -> u32 {
    if increase {
        if value < u32::MAX { (value + 1) as u32 } else { value }
    } else {
        if value > 0 { (value - 1) as u32 } else { value }
    }
}

fn step(value: u32, increase: bool) -> (next: u32)
    ensures
        next == stepped(value, increase),
{
    if increase { value.saturating_add(1) } else { value.saturating_sub(1) }
}

/// The last `n` of a list.
pub open spec fn last_of<T>(list: Seq<T>, n: int) -> Seq<T> {
    if list.len() <= n { list } else { list.skip(list.len() - n) }
}

/// The message history after a message was added.
pub open spec fn with_message(history: Seq<Seq<char>>, msg: Seq<char>) -> Seq<Seq<char>> {
    last_of(history.push(msg), COMMIT_MSG_HISTORY_LENGTH as int)
}

/// The message that is `idx` steps back from the latest one; behind the oldest
/// comes the latest again.
pub open spec fn message_back(history: Seq<Seq<char>>, idx: int) -> Option<Seq<char>> {
    if history.len() == 0 {
        None
    } else {
        Some(history[history.len() - 1 - idx % (history.len() as int)])
    }
}

/// The options of a repository. After every change the caller writes
/// [`Options::data`] to the options file.
#[derive(Debug)]
pub struct Options {
    pub data: OptionsData,
}

impl Options {
    /// Options as they were stored, or the defaults where nothing could be read.
    pub fn new(stored: Option<OptionsData>) -> (options: Options)
        ensures
            match stored {
                Some(data) => options.data == data,
                None => options.data.is_default(),
            },
            stored is None ==> options.data.tab == 0 && options.data.diff == (DiffOptions {
                ignore_whitespace: false,
                context: 1,
                interhunk_lines: 0,
            }) && options.data.status_show_untracked is None && options.data.commit_msgs@.len()
                == 0 && options.data.diff_syntax_highlight
                && options.data.diff_syntax_max_file_bytes == 524_288
                && options.data.diff_syntax_max_file_lines == 10_000,
    {
        Options {
            data: match stored {
                Some(data) => data,
                None => OptionsData::default(),
            },
        }
    }

    pub fn set_current_tab(&mut self, tab: usize)
        ensures
            final(self).data == (OptionsData { tab, ..old(self).data }),
    {
        self.data.tab = tab;
    }

    pub fn current_tab(&self) -> (tab: usize)
        ensures
            tab == self.data.tab,
    {
        self.data.tab
    }

    pub fn diff_options(&self) -> (options: DiffOptions)
        ensures
            options == self.data.diff,
    {
        self.data.diff
    }

    pub fn diff_syntax_highlight(&self) -> (highlight: bool)
        ensures
            highlight == self.data.diff_syntax_highlight,
    {
        self.data.diff_syntax_highlight
    }

    pub fn diff_syntax_max_file_bytes(&self) -> (bytes: u64)
        ensures
            bytes == self.data.diff_syntax_max_file_bytes,
    {
        self.data.diff_syntax_max_file_bytes
    }

    pub fn diff_syntax_max_file_lines(&self) -> (lines: usize)
        ensures
            lines == self.data.diff_syntax_max_file_lines,
    {
        self.data.diff_syntax_max_file_lines
    }

    pub fn status_show_untracked(&self) -> (value: Option<ShowUntrackedFilesConfig>)
        ensures
            value == self.data.status_show_untracked,
    {
        self.data.status_show_untracked
    }

    pub fn set_status_show_untracked(&mut self, value: Option<ShowUntrackedFilesConfig>)
        ensures
            final(self).data == (OptionsData { status_show_untracked: value, ..old(self).data }),
    {
        self.data.status_show_untracked = value;
    }

    /// The options after the number of context lines was stepped.
    pub open spec fn context_changed(self, increase: bool) -> Options {
        Options {
            data: OptionsData {
                diff: DiffOptions {
                    context: stepped(self.data.diff.context, increase),
                    ..self.data.diff
                },
                ..self.data
            },
        }
    }

    pub fn diff_context_change(&mut self, increase: bool)
        ensures
            *final(self) == old(self).context_changed(increase),
            increase && old(self).data.diff.context < u32::MAX ==> final(self).data.diff.context
                == old(self).data.diff.context + 1,
            !increase && old(self).data.diff.context > 0 ==> final(self).data.diff.context
                == old(self).data.diff.context - 1,
            increase && old(self).data.diff.context == u32::MAX || !increase
                && old(self).data.diff.context == 0 ==> final(self).data.diff.context
                == old(self).data.diff.context,
            final(self).data == (OptionsData {
                diff: DiffOptions {
                    context: final(self).data.diff.context,
                    ..old(self).data.diff
                },
                ..old(self).data
            }),
    {
        self.data.diff.context = step(self.data.diff.context, increase);
    }

    /// The options after the number of joining lines was stepped.
    pub open spec fn hunk_lines_changed(self, increase: bool) -> Options {
        Options {
            data: OptionsData {
                diff: DiffOptions {
                    interhunk_lines: stepped(self.data.diff.interhunk_lines, increase),
                    ..self.data.diff
                },
                ..self.data
            },
        }
    }

    pub fn diff_hunk_lines_change(&mut self, increase: bool)
        ensures
            *final(self) == old(self).hunk_lines_changed(increase),
            increase && old(self).data.diff.interhunk_lines < u32::MAX ==> final(self).data.diff.interhunk_lines
                == old(self).data.diff.interhunk_lines + 1,
            !increase && old(self).data.diff.interhunk_lines > 0 ==> final(self).data.diff.interhunk_lines
                == old(self).data.diff.interhunk_lines - 1,
            increase && old(self).data.diff.interhunk_lines == u32::MAX || !increase
                && old(self).data.diff.interhunk_lines == 0 ==> final(self).data.diff.interhunk_lines
                == old(self).data.diff.interhunk_lines,
            final(self).data == (OptionsData {
                diff: DiffOptions {
                    interhunk_lines: final(self).data.diff.interhunk_lines,
                    ..old(self).data.diff
                },
                ..old(self).data
            }),
    {
        self.data.diff.interhunk_lines = step(self.data.diff.interhunk_lines, increase);
    }

    /// The options after whitespace was switched on or off.
    pub open spec fn whitespace_toggled(self) -> Options {
        Options {
            data: OptionsData {
                diff: DiffOptions {
                    ignore_whitespace: !self.data.diff.ignore_whitespace,
                    ..self.data.diff
                },
                ..self.data
            },
        }
    }

    pub fn diff_toggle_whitespace(&mut self)
        ensures
            *final(self) == old(self).whitespace_toggled(),
            final(self).data == (OptionsData {
                diff: DiffOptions {
                    ignore_whitespace: !old(self).data.diff.ignore_whitespace,
                    ..old(self).data.diff
                },
                ..old(self).data
            }),
    {
        self.data.diff.ignore_whitespace = !self.data.diff.ignore_whitespace;
    }

    /// The remembered commit messages, the latest one last.
    pub open spec fn history(self) -> Seq<Seq<char>> {
        texts(self.data.commit_msgs@)
    }

    /// Remembers a commit message, and forgets the oldest ones where there are
    /// too many.
    pub fn add_commit_msg(&mut self, msg: &str)
        ensures
            final(self).history() == with_message(old(self).history(), msg@),
            final(self).data == (OptionsData {
                commit_msgs: final(self).data.commit_msgs,
                ..old(self).data
            }),
    {
        let ghost before = self.history();
        let ghost all = before.push(msg@);
        self.data.commit_msgs.push(msg.to_owned());
        assert(self.history() =~= all);
        assert(all.skip(0) =~= all);
        let ghost mut dropped: int = 0;
        while self.data.commit_msgs.len() > COMMIT_MSG_HISTORY_LENGTH
            invariant
                0 <= dropped <= all.len(),
                self.history() == all.skip(dropped),
                dropped > 0 ==> all.len() - dropped >= COMMIT_MSG_HISTORY_LENGTH,
                self.data == (OptionsData {
                    commit_msgs: self.data.commit_msgs,
                    ..old(self).data
                }),
            decreases self.data.commit_msgs@.len(),
        {
            let ghost prior = self.history();
            assert(prior.len() == self.data.commit_msgs@.len());
            self.data.commit_msgs.remove(0);
            assert(self.history() =~= prior.skip(1));
            assert(all.skip(dropped).skip(1) =~= all.skip(dropped + 1));
            proof {
                dropped = dropped + 1;
            }
        }
        assert(self.history().len() == self.data.commit_msgs@.len());
    }

    pub fn has_commit_msg_history(&self) -> (has: bool)
        ensures
            has == (self.history().len() > 0),
    {
        !self.data.commit_msgs.is_empty()
    }

    /// The message that is `idx` steps back from the latest one.
    pub fn commit_msg(&self, idx: usize) -> (msg: Option<String>)
        ensures
            match msg {
                Some(msg) => message_back(self.history(), idx as int) == Some(msg@),
                None => message_back(self.history(), idx as int) is None,
            },
    {
        if self.data.commit_msgs.is_empty() {
            None
        } else {
            let entries: usize = self.data.commit_msgs.len();
            let back: usize = idx % entries;
            let index: usize = entries - 1 - back;
            assert(self.history()[index as int] == self.data.commit_msgs@[index as int]@);
            Some(self.data.commit_msgs[index].clone())
        }
    }
}

/// Once a message was added, every message that was there before is one step
/// further back, unless it was the oldest of a full history.
pub proof fn law_added_message_pushes_back(history: Seq<Seq<char>>, msg: Seq<char>, back: int)
    requires
        history.len() <= COMMIT_MSG_HISTORY_LENGTH,
        0 <= back < history.len(),
        back < COMMIT_MSG_HISTORY_LENGTH - 1,
    ensures
        message_back(with_message(history, msg), back + 1) == message_back(history, back),
{
    let after = with_message(history, msg);
    assert(after.len() > back + 1);
    assert((back + 1) % (after.len() as int) == back + 1) by (nonlinear_arith)
        requires
            0 <= back + 1 < after.len(),
    ;
    assert(back % (history.len() as int) == back) by (nonlinear_arith)
        requires
            0 <= back < history.len(),
    ;
}

/// A message that is added comes last and pushes none of the nineteen before it
/// out; what is kept stays in its order.
pub proof fn law_message_is_appended(history: Seq<Seq<char>>, msg: Seq<char>)
    ensures
        history.len() < 20 ==> with_message(history, msg) == history.push(msg),
        history.len() >= 20 ==> with_message(history, msg) == history.skip(
            history.len() - 19,
        ).push(msg),
{
    if history.len() >= 20 {
        assert(with_message(history, msg) =~= history.skip(history.len() - 19).push(msg));
    }
}

/// Going back by fewer steps than there are messages comes to the message that many
/// places before the latest; without messages there is none.
pub proof fn law_message_is_counted_from_latest(history: Seq<Seq<char>>, back: int)
    ensures
        history.len() == 0 ==> message_back(history, back) is None,
        0 <= back < history.len() ==> message_back(history, back) == Some(
            history[history.len() - 1 - back],
        ),
{
    if 0 <= back < history.len() {
        assert(back % (history.len() as int) == back) by (nonlinear_arith)
            requires
                0 <= back < history.len(),
        ;
    }
}

/// The history holds the remembered messages in their order.
pub proof fn law_history_holds_messages(options: Options, i: int)
    ensures
        options.history().len() == options.data.commit_msgs@.len(),
        0 <= i < options.history().len() ==> options.history()[i]
            == options.data.commit_msgs@[i]@,
{
}

/// The history never grows beyond its length, and the message that was added
/// last is the latest one.
pub proof fn law_history_is_bounded(history: Seq<Seq<char>>, msg: Seq<char>)
    ensures
        1 <= with_message(history, msg).len() <= COMMIT_MSG_HISTORY_LENGTH,
        message_back(with_message(history, msg), 0) == Some(msg),
{
    let after = with_message(history, msg);
    assert(0int % (after.len() as int) == 0) by (nonlinear_arith)
        requires
            after.len() > 0,
    ;
}

/// Going back by the length of the history comes to the same message.
pub proof fn law_history_is_cyclic(history: Seq<Seq<char>>, back: int)
    requires
        back >= 0,
        history.len() > 0,
    ensures
        message_back(history, back + history.len()) == message_back(history, back),
{
    vstd::arithmetic::div_mod::lemma_mod_add_multiples_vanish(back, history.len() as int);
}

/// A step up and a step down cancel out, except at the ends of the range.
pub proof fn law_context_steps_cancel(options: Options)
    ensures
        options.data.diff.context < u32::MAX ==> options.context_changed(true).context_changed(
            false,
        ) == options,
        options.data.diff.context > 0 ==> options.context_changed(false).context_changed(true)
            == options,
        options.data.diff.interhunk_lines < u32::MAX ==> options.hunk_lines_changed(
            true,
        ).hunk_lines_changed(false) == options,
        options.data.diff.interhunk_lines > 0 ==> options.hunk_lines_changed(
            false,
        ).hunk_lines_changed(true) == options,
{
}

/// Toggling whitespace twice changes nothing.
pub proof fn law_whitespace_toggles_back(options: Options)
    ensures
        options.whitespace_toggled().whitespace_toggled() == options,
{
}

} // verus!
