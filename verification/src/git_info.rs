//! The branch and the size of the diff that a tile shows of its working directory.

use vstd::prelude::*;

use crate::number::{parse_u32, to_decimal};
use crate::split::{find_with, split};
use crate::text::{chars_of, clone_opt, decode_lossy, find_word, trim};

verus! {

/// How long to wait between two looks at a repository. A branch changes rarely, and a diff of a
/// large repository takes its time.
pub const POLL_INTERVAL_SECS: u64 = 3;

/// What came of running `git`.
#[derive(Debug)]
pub struct CommandOutput {
    pub success: bool,
    pub stdout: Vec<u8>,
}

/// The text that a command printed, where it ran and succeeded.
pub open spec fn printed(output: Option<CommandOutput>) -> Option<Seq<char>> {
    match output {
        Some(output) => if output.success {
            Some(crate::text::decoded(output.stdout@))
        } else {
            None
        },
        None => None,
    }
}

/// The branch that `git rev-parse --abbrev-ref HEAD` printed, where it succeeded and printed
/// anything but white space.
pub open spec fn branch_of(output: Option<CommandOutput>) -> Option<Seq<char>> {
    match printed(output) {
        Some(text) => if crate::text::trimmed(text).len() > 0 {
            Some(crate::text::trimmed(text))
        } else {
            None
        },
        None => None,
    }
}

/// The number that leads the first part in which a word stands, or zero where there is none.
pub open spec fn count_in(parts: Seq<Seq<char>>, word: Seq<char>) -> u32 {
    match crate::split::first_with(parts, word) {
        Some(part) => match crate::text::first_word(part) {
            Some(number) => match crate::number::parsed_u32(number) {
                Some(n) => n,
                None => 0,
            },
            None => 0,
        },
        None => 0,
    }
}

/// The added and removed lines that a `git diff --shortstat` text gives.
pub open spec fn shortstat_counts(text: Seq<char>) -> (u32, u32) {
    let parts = crate::split::split_at_each(text, ',');
    (count_in(parts, "insertion"@), count_in(parts, "deletion"@))
}

/// The counts of a diff. Without any, as in a repository that has no commit yet, nothing was
/// added or removed.
pub open spec fn diff_counts(output: Option<CommandOutput>) -> (u32, u32) {
    match printed(output) {
        Some(text) => shortstat_counts(text),
        None => (0, 0),
    }
}

/// A branch and its counts in one line.
pub open spec fn summary_text(branch: Seq<char>, counts: (u32, u32)) -> Seq<char> {
    branch + "  +"@ + crate::number::decimal(counts.0 as nat) + "/-"@ + crate::number::decimal(
        counts.1 as nat,
    )
}

/// The summary for what the two commands came to.
pub open spec fn git_summary_text(
    branch: Option<CommandOutput>,
    diff: Option<CommandOutput>,
) -> Option<Seq<char>> {
    match branch_of(branch) {
        Some(branch) => Some(summary_text(branch, diff_counts(diff))),
        None => None,
    }
}

/// The arguments of the `git` command that prints the current branch of a directory.
pub open spec fn branch_command(dir: Seq<char>) -> Seq<Seq<char>> {
    seq!["-C"@, dir, "rev-parse"@, "--abbrev-ref"@, "HEAD"@]
}

/// The arguments of the `git` command that prints the size of a directory's diff.
pub open spec fn diff_command(dir: Seq<char>) -> Seq<Seq<char>> {
    seq!["-C"@, dir, "diff"@, "HEAD"@, "--shortstat"@]
}

/// The arguments of the `git` command that prints the current branch of a directory.
pub fn branch_args(dir: &str) -> (r: Vec<String>)
    ensures
        crate::text::texts(r@) == branch_command(dir@),
        crate::text::texts(r@) == seq!["-C"@, dir@, "rev-parse"@, "--abbrev-ref"@, "HEAD"@],
{
    let args = vec![
        "-C".to_owned(),
        dir.to_owned(),
        "rev-parse".to_owned(),
        "--abbrev-ref".to_owned(),
        "HEAD".to_owned(),
    ];
    assert(crate::text::texts(args@) =~= seq![
        "-C"@,
        dir@,
        "rev-parse"@,
        "--abbrev-ref"@,
        "HEAD"@,
    ]);
    args
}

/// The arguments of the `git` command that prints the size of a directory's diff.
pub fn diff_args(dir: &str) -> (r: Vec<String>)
    ensures
        crate::text::texts(r@) == diff_command(dir@),
        crate::text::texts(r@) == seq!["-C"@, dir@, "diff"@, "HEAD"@, "--shortstat"@],
{
    let args = vec![
        "-C".to_owned(),
        dir.to_owned(),
        "diff".to_owned(),
        "HEAD".to_owned(),
        "--shortstat".to_owned(),
    ];
    assert(crate::text::texts(args@) =~= seq!["-C"@, dir@, "diff"@, "HEAD"@, "--shortstat"@]);
    args
}

/// The branch that the first command printed. Without one there is no summary, and no need to run
/// the second.
pub fn branch_name(output: &Option<CommandOutput>) -> (r: Option<String>)
    ensures
        crate::text::opt_text(r) == branch_of(*output),
{
    match output {
        Some(output) => {
            if !output.success {
                return None;
            }
            let branch = trim(decode_lossy(&output.stdout).as_str());
            if branch.as_str().is_empty() {
                None
            } else {
                Some(branch)
            }
        },
        None => None,
    }
}

/// Puts a branch and the output of the second command into one line.
pub fn summary_line(branch: &str, diff: &Option<CommandOutput>) -> (r: String)
    ensures
        r@ == summary_text(branch@, diff_counts(*diff)),
{
    let (added, removed) = match diff {
        Some(output) => {
            if output.success {
                parse_shortstat(decode_lossy(&output.stdout).as_str())
            } else {
                (0, 0)
            }
        },
        None => (0, 0),
    };
    let mut line = branch.to_owned();
    line.append("  +");
    line.append(to_decimal(added as u64).as_str());
    line.append("/-");
    line.append(to_decimal(removed as u64).as_str());
    line
}

/// The summary for what the two commands came to. `None` where there is no repository.
pub fn git_summary(branch: &Option<CommandOutput>, diff: &Option<CommandOutput>) -> (r: Option<
    String,
>)
    ensures
        crate::text::opt_text(r) == git_summary_text(*branch, *diff),
{
    match branch_name(branch) {
        Some(branch) => Some(summary_line(branch.as_str(), diff)),
        None => None,
    }
}

/// The number that leads the first part in which a word stands.
fn count_containing(parts: &[Vec<char>], word: &str) -> (r: u32)
    ensures
        r == count_in(crate::split::char_seqs(parts@), word@),
{
    match find_with(parts, &chars_of(word)) {
        Some(part) => match find_word(part) {
            Some(number) => match parse_u32(&number) {
                Some(n) => n,
                None => 0,
            },
            None => 0,
        },
        None => 0,
    }
}

/// Parses the counts out of `git diff --shortstat` output, such as
/// " 2 files changed, 10 insertions(+), 3 deletions(-)". Either count, or both, may be absent
/// when nothing was added or removed.
pub fn parse_shortstat(text: &str) -> (r: (u32, u32))
    ensures
        r == shortstat_counts(text@),
{
    let parts = split(&chars_of(text), ',');
    (count_containing(&parts, "insertion"), count_containing(&parts, "deletion"))
}

/// The latest summary of a working directory, kept so that showing it costs nothing.
#[derive(Debug)]
pub struct GitStatusWatcher {
    status: Option<String>,
}

impl View for GitStatusWatcher {
    type V = Option<Seq<char>>;

    closed spec fn view(&self) -> Option<Seq<char>> {
        crate::text::opt_text(self.status)
    }
}

impl GitStatusWatcher {
    /// Starts from a first summary.
    pub fn start(summary: Option<String>) -> (r: Self)
        ensures
            r@ == crate::text::opt_text(summary),
    {
        GitStatusWatcher { status: summary }
    }

    /// Takes over a new summary.
    pub fn refresh(&mut self, summary: Option<String>)
        ensures
            final(self)@ == crate::text::opt_text(summary),
    {
        self.status = summary;
    }

    /// The latest summary. `None` when the directory is not, or no longer, a git repository.
    pub fn summary(&self) -> (r: Option<String>)
        ensures
            crate::text::opt_text(r) == self@,
    {
        clone_opt(&self.status)
    }
}

// ---------------------------------------------------------------------------------------------
// Laws
// ---------------------------------------------------------------------------------------------

/// One part of a `git diff --shortstat` line: a space, a number, and what it counts.
pub open spec fn stat_part(n: nat, one: Seq<char>, many: Seq<char>) -> Seq<char> {
    " "@ + crate::number::decimal(n) + if n == 1 {
        one
    } else {
        many
    }
}

/// What `git diff --shortstat` prints for so many changed files and added and removed lines. A
/// count of lines that is absent is left out.
pub open spec fn shortstat_text(files: nat, added: Option<u32>, removed: Option<u32>) -> Seq<char> {
    let changed = stat_part(files, " file changed"@, " files changed"@);
    let with_added = match added {
        Some(n) => changed.push(',') + stat_part(n as nat, " insertion(+)"@, " insertions(+)"@),
        None => changed,
    };
    let with_removed = match removed {
        Some(n) => with_added.push(',') + stat_part(n as nat, " deletion(-)"@, " deletions(-)"@),
        None => with_added,
    };
    with_removed.push('\n')
}

/// The counts that `git diff --shortstat` prints are read back as they are, and zero for each
/// that is left out.
pub proof fn law_shortstat_round_trip(files: nat, added: Option<u32>, removed: Option<u32>)
    ensures
        shortstat_counts(shortstat_text(files, added, removed)) == (
            match added {
                Some(n) => n,
                None => 0u32,
            },
            match removed {
                Some(n) => n,
                None => 0u32,
            },
        ),
{
    lemma_split_stat(files, added, removed);
    lemma_tails();
    let whole = Seq::<char>::empty();
    let end = seq!['\n'];
    let changed = files_part(files);
    lemma_part_pairs(files, " file changed"@, " files changed"@, 'i', 'n');
    lemma_part_pairs(files, " file changed"@, " files changed"@, 'd', 'e');
    lemma_no_word(changed, "insertion"@);
    lemma_no_word(changed, "deletion"@);
    lemma_no_word(changed.push('\n'), "insertion"@);
    lemma_no_word(changed.push('\n'), "deletion"@);
    if let Some(n) = added {
        let part = added_part(n);
        assert(part + whole =~= part);
        assert(part + end =~= part.push('\n'));
        lemma_part_word(n as nat, " insertion(+)"@, " insertions(+)"@, whole, "insertion"@);
        lemma_part_word(n as nat, " insertion(+)"@, " insertions(+)"@, end, "insertion"@);
        lemma_part_number(n, " insertion(+)"@, " insertions(+)"@, whole);
        lemma_part_number(n, " insertion(+)"@, " insertions(+)"@, end);
        lemma_part_pairs(n as nat, " insertion(+)"@, " insertions(+)"@, 'd', 'e');
        lemma_no_word(part, "deletion"@);
        lemma_no_word(part.push('\n'), "deletion"@);
        crate::number::law_decimal_round_trip(n);
    }
    if let Some(n) = removed {
        let part = removed_part(n);
        assert(part + end =~= part.push('\n'));
        lemma_part_word(n as nat, " deletion(-)"@, " deletions(-)"@, end, "deletion"@);
        lemma_part_number(n, " deletion(-)"@, " deletions(-)"@, end);
        lemma_part_pairs(n as nat, " deletion(-)"@, " deletions(-)"@, 'i', 'n');
        lemma_no_word(part.push('\n'), "insertion"@);
        crate::number::law_decimal_round_trip(n);
    }
    reveal_with_fuel(crate::split::first_with, 4);
}

/// Both commands look at the given directory, whatever it is, and the rest of either is always the
/// same.
pub proof fn law_commands(dir: Seq<char>, other: Seq<char>)
    ensures
        branch_command(dir).take(2) == seq!["-C"@, dir],
        diff_command(dir).take(2) == seq!["-C"@, dir],
        branch_command(dir).skip(2) == seq!["rev-parse"@, "--abbrev-ref"@, "HEAD"@],
        diff_command(dir).skip(2) == seq!["diff"@, "HEAD"@, "--shortstat"@],
        branch_command(dir) == branch_command(other) ==> dir == other,
        diff_command(dir) == diff_command(other) ==> dir == other,
{
    assert(branch_command(dir).take(2) =~= seq!["-C"@, dir]);
    assert(diff_command(dir).take(2) =~= seq!["-C"@, dir]);
    assert(branch_command(dir).skip(2) =~= seq!["rev-parse"@, "--abbrev-ref"@, "HEAD"@]);
    assert(diff_command(dir).skip(2) =~= seq!["diff"@, "HEAD"@, "--shortstat"@]);
    assert(branch_command(dir)[1] == dir && branch_command(other)[1] == other);
    assert(diff_command(dir)[1] == dir && diff_command(other)[1] == other);
}

/// A count is the number that leads the first part in which its word stands, wherever that part is
/// and whatever the others hold. It is zero where the word stands nowhere, or where what leads the
/// part is no number.
pub proof fn law_count_leads_its_part(
    text: Seq<char>,
    before: Seq<Seq<char>>,
    white: Seq<char>,
    number: Seq<char>,
    rest: Seq<char>,
    behind: Seq<Seq<char>>,
    word: Seq<char>,
)
    requires
        word == "insertion"@ || word == "deletion"@,
        crate::split::split_at_each(text, ',') == before + seq![white + number + rest] + behind,
        forall|i: int|
            0 <= i < before.len() ==> !crate::split::has_word(#[trigger] before[i], word),
        forall|i: int| 0 <= i < white.len() ==> crate::text::is_white(#[trigger] white[i]),
        forall|i: int| 0 <= i < number.len() ==> !crate::text::is_white(#[trigger] number[i]),
        number.len() > 0,
        rest.len() > 0 ==> crate::text::is_white(rest.first()),
        crate::split::has_word(white + number + rest, word),
    ensures
        (if word == "insertion"@ {
            shortstat_counts(text).0
        } else {
            shortstat_counts(text).1
        }) == match crate::number::parsed_u32(number) {
            Some(n) => n,
            None => 0,
        },
{
    reveal_strlit("insertion");
    reveal_strlit("deletion");
    assert("insertion"@.len() != "deletion"@.len());
    crate::split::law_first_with(before, white + number + rest, behind, word);
    crate::text::law_first_word(white, number, rest);
}

/// A word that stands in no part counts nothing.
pub proof fn law_absent_count(text: Seq<char>)
    ensures
        (forall|i: int|
            0 <= i < crate::split::split_at_each(text, ',').len() ==> !crate::split::has_word(
                #[trigger] crate::split::split_at_each(text, ',')[i],
                "insertion"@,
            )) ==> shortstat_counts(text).0 == 0,
        (forall|i: int|
            0 <= i < crate::split::split_at_each(text, ',').len() ==> !crate::split::has_word(
                #[trigger] crate::split::split_at_each(text, ',')[i],
                "deletion"@,
            )) ==> shortstat_counts(text).1 == 0,
{
    let parts = crate::split::split_at_each(text, ',');
    lemma_first_with_none(parts, "insertion"@);
    lemma_first_with_none(parts, "deletion"@);
}

proof fn lemma_first_with_none(parts: Seq<Seq<char>>, word: Seq<char>)
    ensures
        (forall|i: int|
            0 <= i < parts.len() ==> !crate::split::has_word(#[trigger] parts[i], word))
            ==> crate::split::first_with(parts, word) is None,
    decreases parts.len(),
{
    if parts.len() > 0 {
        let rest = parts.drop_first();
        lemma_first_with_none(rest, word);
        assert(forall|i: int| 0 <= i < rest.len() ==> #[trigger] rest[i] == parts[i + 1]);
    }
}

/// A summary begins with the branch, and both counts can be read back from what follows it.
pub proof fn law_summary_read_back(branch: Seq<char>, added: u32, removed: u32)
    ensures
        ({
            let line = summary_text(branch, (added, removed));
            let from: int = branch.len() + 3int;
            let slash: int = from + crate::number::decimal(added as nat).len();
            &&& line.take(branch.len() as int) == branch
            &&& line.subrange(branch.len() as int, from) == "  +"@
            &&& crate::number::parsed_u32(line.subrange(from, slash)) == Some(added)
            &&& line.subrange(slash, slash + 2) == "/-"@
            &&& crate::number::parsed_u32(line.skip(slash + 2)) == Some(removed)
        }),
{
    reveal_strlit("  +");
    reveal_strlit("/-");
    crate::number::law_decimal_round_trip(added);
    crate::number::law_decimal_round_trip(removed);
    let first = crate::number::decimal(added as nat);
    let second = crate::number::decimal(removed as nat);
    let line = summary_text(branch, (added, removed));
    let from: int = branch.len() + 3int;
    let slash: int = from + first.len();
    assert(line.take(branch.len() as int) =~= branch);
    assert(line.subrange(branch.len() as int, from) =~= "  +"@);
    assert(line.subrange(from, slash) =~= first);
    assert(line.subrange(slash, slash + 2) =~= "/-"@);
    assert(line.skip(slash + 2) =~= second);
}

/// Two summaries of one branch are equal only if both counts are.
pub proof fn law_summaries_differ(branch: Seq<char>, a: (u32, u32), b: (u32, u32))
    requires
        summary_text(branch, a) == summary_text(branch, b),
    ensures
        a == b,
{
    reveal_strlit("  +");
    reveal_strlit("/-");
    let line = summary_text(branch, a);
    let a_first = crate::number::decimal(a.0 as nat);
    let b_first = crate::number::decimal(b.0 as nat);
    crate::number::law_decimal_digits(a.0 as nat);
    crate::number::law_decimal_digits(b.0 as nat);
    let from: int = branch.len() + 3int;
    if a_first.len() < b_first.len() {
        let at = a_first.len() as int;
        assert(line[from + at] == "/-"@[0]);
        assert(line[from + at] == b_first[at]);
    }
    if b_first.len() < a_first.len() {
        let at = b_first.len() as int;
        assert(line[from + at] == "/-"@[0]);
        assert(line[from + at] == a_first[at]);
    }
    law_summary_read_back(branch, a.0, a.1);
    law_summary_read_back(branch, b.0, b.1);
}

/// From what `git` prints to what is shown: the branch without the white space around it, then the
/// added and the removed lines, each as printed and zero where left out.
pub proof fn law_git_summary(
    branch: CommandOutput,
    diff: CommandOutput,
    before: Seq<char>,
    name: Seq<char>,
    after: Seq<char>,
    files: nat,
    added: Option<u32>,
    removed: Option<u32>,
)
    requires
        branch.success,
        branch.stdout@ == vstd::utf8::encode_utf8(before + name + after),
        forall|i: int| 0 <= i < before.len() ==> crate::text::is_white(#[trigger] before[i]),
        forall|i: int| 0 <= i < after.len() ==> crate::text::is_white(#[trigger] after[i]),
        name.len() > 0,
        !crate::text::is_white(name.first()),
        !crate::text::is_white(name.last()),
        diff.success,
        diff.stdout@ == vstd::utf8::encode_utf8(shortstat_text(files, added, removed)),
    ensures
        ({
            let plus: nat = match added {
                Some(n) => n as nat,
                None => 0,
            };
            let minus: nat = match removed {
                Some(n) => n as nat,
                None => 0,
            };
            git_summary_text(Some(branch), Some(diff)) == Some(
                name + "  +"@ + crate::number::decimal(plus) + "/-"@ + crate::number::decimal(minus),
            )
        }),
{
    crate::text::law_decoded(before + name + after, Seq::empty());
    crate::text::law_trimmed(before, name, after);
    crate::text::law_decoded(shortstat_text(files, added, removed), Seq::empty());
    law_shortstat_round_trip(files, added, removed);
}

/// An empty diff, or one that could not be had, changes nothing: the branch is shown with two
/// zeros.
pub proof fn law_no_diff(branch: CommandOutput, diff: Option<CommandOutput>)
    requires
        branch_of(Some(branch)) is Some,
        match diff {
            Some(output) => !output.success || output.stdout@.len() == 0,
            None => true,
        },
    ensures
        git_summary_text(Some(branch), diff) == Some(
            branch_of(Some(branch))->0 + "  +"@ + seq!['0'] + "/-"@ + seq!['0'],
        ),
{
    crate::number::law_digits();
    let nothing = Seq::<char>::empty();
    crate::text::law_decoded(nothing, Seq::empty());
    assert(vstd::utf8::encode_utf8(nothing) =~= Seq::<u8>::empty());
    if let Some(output) = diff {
        if output.success {
            assert(output.stdout@ =~= Seq::<u8>::empty());
            crate::split::law_split_whole(nothing, ',');
            reveal_strlit("insertion");
            reveal_strlit("deletion");
            assert(!crate::split::has_word(nothing, "insertion"@));
            assert(!crate::split::has_word(nothing, "deletion"@));
            reveal_with_fuel(crate::split::first_with, 3);
        }
    }
}

/// There is a summary exactly when the first command has run, has succeeded and has printed more
/// than white space, whatever came of the second.
pub proof fn law_no_summary(
    branch: Option<CommandOutput>,
    diff: Option<CommandOutput>,
    white: Seq<char>,
)
    requires
        forall|i: int| 0 <= i < white.len() ==> crate::text::is_white(#[trigger] white[i]),
    ensures
        branch is None ==> git_summary_text(branch, diff) is None,
        branch is Some && !branch->0.success ==> git_summary_text(branch, diff) is None,
        branch is Some && branch->0.stdout@ == vstd::utf8::encode_utf8(white) ==> git_summary_text(
            branch,
            diff,
        ) is None,
{
    let nothing = Seq::<char>::empty();
    crate::text::law_decoded(white, Seq::empty());
    crate::text::law_trimmed(white, nothing, nothing);
    assert(white + nothing + nothing =~= white);
}

/// The part that counts the changed files.
spec fn files_part(n: nat) -> Seq<char> {
    stat_part(n, " file changed"@, " files changed"@)
}

/// The part that counts the added lines.
spec fn added_part(n: u32) -> Seq<char> {
    stat_part(n as nat, " insertion(+)"@, " insertions(+)"@)
}

/// The part that counts the removed lines.
spec fn removed_part(n: u32) -> Seq<char> {
    stat_part(n as nat, " deletion(-)"@, " deletions(-)"@)
}

/// The parts of a whole line, with the line break at the end of the last.
spec fn stat_parts(files: nat, added: Option<u32>, removed: Option<u32>) -> Seq<Seq<char>> {
    match (added, removed) {
        (None, None) => seq![files_part(files).push('\n')],
        (Some(a), None) => seq![files_part(files), added_part(a).push('\n')],
        (None, Some(r)) => seq![files_part(files), removed_part(r).push('\n')],
        (Some(a), Some(r)) => seq![files_part(files), added_part(a), removed_part(r).push('\n')],
    }
}

/// A line is taken apart into those parts.
proof fn lemma_split_stat(files: nat, added: Option<u32>, removed: Option<u32>)
    ensures
        crate::split::split_at_each(shortstat_text(files, added, removed), ',') == stat_parts(
            files,
            added,
            removed,
        ),
{
    lemma_tails();
    let text = shortstat_text(files, added, removed);
    let changed = files_part(files);
    lemma_part_has_no_comma(files, " file changed"@, " files changed"@);
    lemma_whole_part(changed);
    if let Some(a) = added {
        lemma_part_has_no_comma(a as nat, " insertion(+)"@, " insertions(+)"@);
        lemma_whole_part(added_part(a));
    }
    if let Some(r) = removed {
        lemma_part_has_no_comma(r as nat, " deletion(-)"@, " deletions(-)"@);
        lemma_whole_part(removed_part(r));
    }
    match (added, removed) {
        (None, None) => {},
        (Some(a), None) => {
            let last = added_part(a).push('\n');
            assert(text =~= changed.push(',') + last);
            crate::split::law_split_joined(changed, ',', last);
            assert(seq![changed] + seq![last] =~= stat_parts(files, added, removed));
        },
        (None, Some(r)) => {
            let last = removed_part(r).push('\n');
            assert(text =~= changed.push(',') + last);
            crate::split::law_split_joined(changed, ',', last);
            assert(seq![changed] + seq![last] =~= stat_parts(files, added, removed));
        },
        (Some(a), Some(r)) => {
            let middle = added_part(a);
            let last = removed_part(r).push('\n');
            assert(text =~= changed.push(',') + (middle.push(',') + last));
            crate::split::law_split_joined(changed, ',', middle.push(',') + last);
            crate::split::law_split_joined(middle, ',', last);
            assert(seq![changed] + (seq![middle] + seq![last]) =~= stat_parts(
                files,
                added,
                removed,
            ));
        },
    }
}

/// A part is one part, with the line break behind it as without.
proof fn lemma_whole_part(part: Seq<char>)
    requires
        !part.contains(','),
    ensures
        crate::split::split_at_each(part, ',') == seq![part],
        crate::split::split_at_each(part.push('\n'), ',') == seq![part.push('\n')],
{
    crate::split::law_split_whole(part, ',');
    if part.push('\n').contains(',') {
        let i = part.push('\n').index_of(',');
        assert(part[i] == ',');
    }
    crate::split::law_split_whole(part.push('\n'), ',');
}

/// The word for what a part counts stands in it.
proof fn lemma_part_word(
    n: nat,
    one: Seq<char>,
    many: Seq<char>,
    rest: Seq<char>,
    word: Seq<char>,
)
    requires
        crate::split::word_at(one, word, 1),
        crate::split::word_at(many, word, 1),
    ensures
        crate::split::has_word(stat_part(n, one, many) + rest, word),
{
    let tail = if n == 1 {
        one
    } else {
        many
    };
    let digits = crate::number::decimal(n);
    reveal_strlit(" ");
    let s = stat_part(n, one, many) + rest;
    let at: int = digits.len() + 2int;
    assert(s.subrange(at, at + word.len()) =~= tail.subrange(1, 1int + word.len()));
    assert(crate::split::word_at(s, word, at));
}

/// A text in which one character never directly follows another.
spec fn never_follows(s: Seq<char>, a: char, b: char) -> bool {
    forall|i: int| 0 <= i < s.len() - 1 ==> !(#[trigger] s[i] == a && s[i + 1] == b)
}

proof fn lemma_no_word(s: Seq<char>, word: Seq<char>)
    requires
        word.len() >= 2,
        never_follows(s, word[0], word[1]),
    ensures
        !crate::split::has_word(s, word),
{
    assert forall|i: int| !#[trigger] crate::split::word_at(s, word, i) by {
        if crate::split::word_at(s, word, i) {
            assert(s.subrange(i, i + word.len())[0] == s[i]);
            assert(s.subrange(i, i + word.len())[1] == s[i + 1]);
        }
    }
}

/// A part holds no comma where what it counts holds none.
proof fn lemma_part_has_no_comma(n: nat, one: Seq<char>, many: Seq<char>)
    requires
        !one.contains(','),
        !many.contains(','),
    ensures
        !stat_part(n, one, many).contains(','),
{
    let tail = if n == 1 {
        one
    } else {
        many
    };
    let digits = crate::number::decimal(n);
    crate::number::law_decimal_digits(n);
    reveal_strlit(" ");
    let part = stat_part(n, one, many);
    assert(part =~= " "@ + digits + tail);
    if part.contains(',') {
        let i = part.index_of(',');
        if 1 <= i < 1 + digits.len() {
            assert(part[i] == digits[i - 1]);
        } else if i >= 1 + digits.len() {
            assert(part[i] == tail[i - 1 - digits.len()]);
        }
    }
}

/// The pair of characters that begins a word stands in a part only where what it counts has it.
proof fn lemma_part_pairs(n: nat, one: Seq<char>, many: Seq<char>, a: char, b: char)
    requires
        never_follows(one, a, b),
        never_follows(many, a, b),
        !crate::number::is_digit(a),
        a != ' ',
    ensures
        never_follows(stat_part(n, one, many), a, b),
{
    let tail = if n == 1 {
        one
    } else {
        many
    };
    let digits = crate::number::decimal(n);
    crate::number::law_decimal_digits(n);
    reveal_strlit(" ");
    let part = stat_part(n, one, many);
    assert(part =~= " "@ + digits + tail);
    assert forall|i: int| 0 <= i < part.len() - 1 implies !(#[trigger] part[i] == a && part[i + 1]
        == b) by {
        if 1 <= i < 1 + digits.len() {
            assert(part[i] == digits[i - 1]);
        } else if i >= 1 + digits.len() {
            assert(part[i] == tail[i - 1 - digits.len()]);
            assert(part[i + 1] == tail[i - digits.len()]);
        }
    }
}

/// A part followed by any text leads with its number.
proof fn lemma_part_number(n: u32, one: Seq<char>, many: Seq<char>, rest: Seq<char>)
    requires
        one.len() > 0,
        many.len() > 0,
        crate::text::is_white(one[0]),
        crate::text::is_white(many[0]),
    ensures
        crate::text::first_word(stat_part(n as nat, one, many) + rest) == Some(
            crate::number::decimal(n as nat),
        ),
{
    let tail = if n == 1 {
        one
    } else {
        many
    };
    let digits = crate::number::decimal(n as nat);
    crate::number::law_decimal_digits(n as nat);
    reveal_strlit(" ");
    let s = stat_part(n as nat, one, many) + rest;
    let t = digits + (tail + rest);
    assert(s[0] == ' ');
    assert(s.drop_first() =~= t);
    assert(t[0] == digits[0]);
    assert(crate::number::is_digit(digits[0]));
    assert(crate::text::skip_white(s) == crate::text::skip_white(t));
    assert(crate::text::skip_white(t) == t);
    lemma_word_of_digits(digits, tail + rest);
    assert(t.take(digits.len() as int) =~= digits);
}

proof fn lemma_word_of_digits(digits: Seq<char>, rest: Seq<char>)
    requires
        crate::number::all_digits(digits),
        rest.len() > 0,
        crate::text::is_white(rest[0]),
    ensures
        crate::text::word_len(digits + rest) == digits.len(),
    decreases digits.len(),
{
    if digits.len() > 0 {
        assert((digits + rest)[0] == digits[0]);
        assert(crate::number::is_digit(digits[0]));
        assert((digits + rest).drop_first() =~= digits.drop_first() + rest);
        lemma_word_of_digits(digits.drop_first(), rest);
    } else {
        assert(digits + rest =~= rest);
    }
}

/// What the parts count, letter by letter.
proof fn lemma_tails()
    ensures
        !" file changed"@.contains(','),
        !" files changed"@.contains(','),
        !" insertion(+)"@.contains(','),
        !" insertions(+)"@.contains(','),
        !" deletion(-)"@.contains(','),
        !" deletions(-)"@.contains(','),
        never_follows(" file changed"@, 'i', 'n'),
        never_follows(" files changed"@, 'i', 'n'),
        never_follows(" deletion(-)"@, 'i', 'n'),
        never_follows(" deletions(-)"@, 'i', 'n'),
        never_follows(" file changed"@, 'd', 'e'),
        never_follows(" files changed"@, 'd', 'e'),
        never_follows(" insertion(+)"@, 'd', 'e'),
        never_follows(" insertions(+)"@, 'd', 'e'),
        "insertion"@.len() >= 2,
        "insertion"@[0] == 'i',
        "insertion"@[1] == 'n',
        "deletion"@.len() >= 2,
        "deletion"@[0] == 'd',
        "deletion"@[1] == 'e',
        " insertion(+)"@.len() > 0,
        " insertion(+)"@[0] == ' ',
        " insertions(+)"@.len() > 0,
        " insertions(+)"@[0] == ' ',
        " deletion(-)"@.len() > 0,
        " deletion(-)"@[0] == ' ',
        " deletions(-)"@.len() > 0,
        " deletions(-)"@[0] == ' ',
        crate::split::word_at(" insertion(+)"@, "insertion"@, 1),
        crate::split::word_at(" insertions(+)"@, "insertion"@, 1),
        crate::split::word_at(" deletion(-)"@, "deletion"@, 1),
        crate::split::word_at(" deletions(-)"@, "deletion"@, 1),
{
    reveal_strlit(" file changed");
    reveal_strlit(" files changed");
    reveal_strlit(" insertion(+)");
    reveal_strlit(" insertions(+)");
    reveal_strlit(" deletion(-)");
    reveal_strlit(" deletions(-)");
    reveal_strlit("insertion");
    reveal_strlit("deletion");
    assert(" insertion(+)"@.subrange(1, 10) =~= "insertion"@);
    assert(" insertions(+)"@.subrange(1, 10) =~= "insertion"@);
    assert(" deletion(-)"@.subrange(1, 9) =~= "deletion"@);
    assert(" deletions(-)"@.subrange(1, 9) =~= "deletion"@);
}

} // verus!
