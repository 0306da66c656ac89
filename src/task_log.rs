use vstd::prelude::*;

use crate::commands::{ps_escape_single_quoted, single_quote_escaped, CommandResult};
use crate::text::{
    chars_of, contains_chars, contains_text, decimal_text, join_lines, joined_lines, lines_of,
    push_decimal, text_lines, trim_end_of, trim_end_text, trim_of, trim_text, views,
};

verus! {

/// The part of the removal script before the package name.
pub const REMOVAL_SCRIPT_HEAD: &'static str = r#"
$pkgName = '"#;

/// The part of the removal script after the package name.
pub const REMOVAL_SCRIPT_TAIL: &'static str = r#"'
$hasFailure = $false
$removedInstalled = 0
$removedProvisioned = 0

$installedMatches = Get-AppxPackage -AllUsers -ErrorAction SilentlyContinue | Where-Object { $_.Name -eq $pkgName }
if (-not $installedMatches) {
  $installedMatches = Get-AppxPackage -ErrorAction SilentlyContinue | Where-Object { $_.Name -eq $pkgName }
}
foreach ($pkg in $installedMatches) {
  try {
    Remove-AppxPackage -Package $pkg.PackageFullName -AllUsers -ErrorAction Stop | Out-Null
    $removedInstalled++
  } catch {
    $hasFailure = $true
    Write-Output "[FAIL] $pkgName installed remove error: $($_.Exception.Message)"
  }
}

try {
  $provisionedMatches = Get-AppxProvisionedPackage -Online -ErrorAction Stop | Where-Object { $_.DisplayName -eq $pkgName }
  foreach ($prov in $provisionedMatches) {
    try {
      Remove-AppxProvisionedPackage -Online -PackageName $prov.PackageName -ErrorAction Stop | Out-Null
      $removedProvisioned++
    } catch {
      $hasFailure = $true
      Write-Output "[FAIL] $pkgName provisioned remove error: $($_.Exception.Message)"
    }
  }
} catch {
  $hasFailure = $true
  Write-Output "[FAIL] $pkgName provisioned query error: $($_.Exception.Message)"
}

if ($removedInstalled -gt 0 -or $removedProvisioned -gt 0) {
  Write-Output "[OK] $pkgName removed installed=$removedInstalled provisioned=$removedProvisioned"
} elseif ($hasFailure) {
  Write-Output "[WARN] $pkgName no removal completed"
} else {
  Write-Output "[SKIP] $pkgName not installed"
}
"#;

/// The PowerShell script that removes the package `package`, installed and
/// provisioned, and reports `[OK]`, `[WARN]`, `[SKIP]` or `[FAIL]` lines.
pub open spec fn removal_script_text(package: Seq<char>) -> Seq<char> {
    REMOVAL_SCRIPT_HEAD@ + single_quote_escaped(package) + REMOVAL_SCRIPT_TAIL@
}

/// The PowerShell script that removes the package `package`.
pub fn removal_script(package: &str) -> (r: String)
    ensures
        r@ == removal_script_text(package@),
{
    let mut r = String::from_str(REMOVAL_SCRIPT_HEAD);
    let escaped = ps_escape_single_quoted(package);
    r.append(escaped.as_str());
    r.append(REMOVAL_SCRIPT_TAIL);
    r
}

/// How one step of a cleanup or removal ended.
#[derive(Debug, Clone, Copy, PartialEq, Eq, Structural)]
pub enum TaskOutcome {
    Done,
    Skipped,
    Failed,
}

/// A script's trimmed output, read for a cache cleanup: failed when it
/// reports a failure, else done.
pub open spec fn cleanup_verdict(clean: Seq<char>) -> TaskOutcome {
    if contains_text(clean, "[FAIL]"@) {
        TaskOutcome::Failed
    } else {
        TaskOutcome::Done
    }
}

/// A script's trimmed output, read for a package removal: failed when it
/// reports a failure, else done when it reports a removal, else skipped.
pub open spec fn removal_verdict(clean: Seq<char>) -> TaskOutcome {
    if contains_text(clean, "[FAIL]"@) {
        TaskOutcome::Failed
    } else if contains_text(clean, "[OK]"@) {
        TaskOutcome::Done
    } else {
        TaskOutcome::Skipped
    }
}

/// How a cache cleanup ended, given its script's trimmed output.
pub fn classify_cleanup_output(clean: &str) -> (r: TaskOutcome)
    ensures
        r == cleanup_verdict(clean@),
{
    if contains_chars(&chars_of(clean), &chars_of("[FAIL]")) {
        TaskOutcome::Failed
    } else {
        TaskOutcome::Done
    }
}

/// How a package removal ended, given its script's trimmed output.
pub fn classify_removal_output(clean: &str) -> (r: TaskOutcome)
    ensures
        r == removal_verdict(clean@),
{
    let text = chars_of(clean);
    if contains_chars(&text, &chars_of("[FAIL]")) {
        TaskOutcome::Failed
    } else if contains_chars(&text, &chars_of("[OK]")) {
        TaskOutcome::Done
    } else {
        TaskOutcome::Skipped
    }
}

/// What a script run gave back: its output, or why it could not be run.
pub open spec fn outcome_view(outcome: Result<String, String>) -> Result<Seq<char>, Seq<char>> {
    match outcome {
        Ok(s) => Ok(s@),
        Err(e) => Err(e@),
    }
}

/// The lines of a script's trimmed output, each without trailing white space.
pub open spec fn output_lines(clean: Seq<char>) -> Seq<Seq<char>> {
    lines_of(clean).map_values(|l: Seq<char>| trim_end_of(l))
}

/// What a cache cleanup adds to the log.
pub open spec fn cleanup_step_lines(label: Seq<char>, outcome: Result<Seq<char>, Seq<char>>) -> Seq<Seq<char>> {
    seq!["[TARGET] "@ + label] + (match outcome {
        Ok(raw) => if trim_of(raw).len() == 0 {
            seq!["[OK] "@ + label + " cleaned."@]
        } else {
            output_lines(trim_of(raw))
        },
        Err(e) => seq!["[FAIL] "@ + label + " cleanup error: "@ + trim_of(e)],
    }) + seq![Seq::empty()]
}

/// How a cache cleanup ended.
pub open spec fn cleanup_step_outcome(outcome: Result<Seq<char>, Seq<char>>) -> TaskOutcome {
    match outcome {
        Ok(raw) => if trim_of(raw).len() == 0 {
            TaskOutcome::Done
        } else {
            cleanup_verdict(trim_of(raw))
        },
        Err(_) => TaskOutcome::Failed,
    }
}

/// What a package removal adds to the log.
pub open spec fn removal_step_lines(package: Seq<char>, outcome: Result<Seq<char>, Seq<char>>) -> Seq<Seq<char>> {
    (match outcome {
        Ok(raw) => if trim_of(raw).len() == 0 {
            seq!["[SKIP] "@ + package + " no output returned"@]
        } else {
            output_lines(trim_of(raw))
        },
        Err(e) => seq!["[FAIL] "@ + package + " command execution failed: "@ + trim_of(e)],
    }) + seq![Seq::empty()]
}

/// How a package removal ended.
pub open spec fn removal_step_outcome(outcome: Result<Seq<char>, Seq<char>>) -> TaskOutcome {
    match outcome {
        Ok(raw) => if trim_of(raw).len() == 0 {
            TaskOutcome::Skipped
        } else {
            removal_verdict(trim_of(raw))
        },
        Err(_) => TaskOutcome::Failed,
    }
}

/// How many of `os` are `which`.
pub open spec fn count_outcomes(os: Seq<TaskOutcome>, which: TaskOutcome) -> nat
    decreases os.len(),
{
    if os.len() == 0 {
        0
    } else if os.last() == which {
        count_outcomes(os.drop_last(), which) + 1
    } else {
        count_outcomes(os.drop_last(), which)
    }
}

/// What a log holds: its lines so far and how each step ended.
pub struct TaskLogView {
    pub lines: Seq<Seq<char>>,
    pub outcomes: Seq<TaskOutcome>,
}

/// The log of a cache cleanup or a package removal, one step at a time.
pub struct TaskLog {
    lines: Vec<String>,
    outcomes: Vec<TaskOutcome>,
}

impl View for TaskLog {
    type V = TaskLogView;

    closed spec fn view(&self) -> TaskLogView {
        TaskLogView { lines: views(self.lines@), outcomes: self.outcomes@ }
    }
}

fn count_of(os: &Vec<TaskOutcome>, which: TaskOutcome) -> (r: usize)
    ensures
        r == count_outcomes(os@, which),
{
    let mut r: usize = 0;
    for i in 0..os.len()
        invariant
            r == count_outcomes(os@.take(i as int), which),
            r <= i,
    {
        assert(os@.take(i + 1).drop_last() == os@.take(i as int));
        assert(os@.take(i + 1).last() == os@[i as int]);
        if os[i] == which {
            r = r + 1;
        }
    }
    assert(os@.take(os.len() as int) == os@);
    r
}

impl TaskLog {
    /// The log of a cleanup of `count` cache targets, with its heading.
    pub fn for_cleanup(count: usize) -> (r: TaskLog)
        ensures
            r@.lines == seq![
                "Requested cleanup for "@ + decimal_text(count as nat) + " cache target(s)."@,
                "Administrative privileges may be required for some targets."@,
                Seq::<char>::empty(),
            ],
            r@.outcomes.len() == 0,
    {
        let mut first = String::from_str("Requested cleanup for ");
        push_decimal(&mut first, count as u64);
        first.append(" cache target(s).");
        let mut lines: Vec<String> = Vec::new();
        lines.push(first);
        lines.push(String::from_str("Administrative privileges may be required for some targets."));
        lines.push(String::new());
        let r = TaskLog { lines, outcomes: Vec::new() };
        assert(r@.lines == seq![lines@[0]@, lines@[1]@, lines@[2]@]);
        r
    }

    /// The log of a removal of `count` packages, with its heading.
    pub fn for_removal(count: usize) -> (r: TaskLog)
        ensures
            r@.lines == seq![
                "Requested removal for "@ + decimal_text(count as nat) + " package(s)."@,
                "Administrative privileges may be required for removal."@,
                Seq::<char>::empty(),
            ],
            r@.outcomes.len() == 0,
    {
        let mut first = String::from_str("Requested removal for ");
        push_decimal(&mut first, count as u64);
        first.append(" package(s).");
        let mut lines: Vec<String> = Vec::new();
        lines.push(first);
        lines.push(String::from_str("Administrative privileges may be required for removal."));
        lines.push(String::new());
        let r = TaskLog { lines, outcomes: Vec::new() };
        assert(r@.lines == seq![lines@[0]@, lines@[1]@, lines@[2]@]);
        r
    }

    fn push_line(&mut self, line: String)
        ensures
            final(self)@.lines == old(self)@.lines.push(line@),
            final(self)@.outcomes == old(self)@.outcomes,
    {
        self.lines.push(line);
        assert(views(self.lines@) == views(old(self).lines@).push(line@));
    }

    /// Adds the lines of a script's trimmed output, each without trailing
    /// white space.
    fn push_output_lines(&mut self, clean: &str)
        ensures
            final(self)@.lines == old(self)@.lines + output_lines(clean@),
            final(self)@.outcomes == old(self)@.outcomes,
    {
        let ls = text_lines(clean);
        let ghost src = views(ls@);
        for j in 0..ls.len()
            invariant
                src == views(ls@),
                src == lines_of(clean@),
                self@.lines == old(self)@.lines + src.take(j as int).map_values(|l: Seq<char>| trim_end_of(l)),
                self@.outcomes == old(self)@.outcomes,
        {
            let t = trim_end_text(ls[j].as_str());
            self.push_line(String::from_str(t));
            assert(src.take(j + 1).map_values(|l: Seq<char>| trim_end_of(l)) == src.take(j as int).map_values(
                |l: Seq<char>| trim_end_of(l),
            ).push(trim_end_of(ls@[j as int]@)));
        }
        assert(src.take(ls.len() as int) == src);
    }

    /// Logs one cache cleanup, labelled `label`, that gave back `outcome`.
    pub fn record_cleanup(&mut self, label: &str, outcome: Result<String, String>)
        ensures
            final(self)@.lines == old(self)@.lines + cleanup_step_lines(label@, outcome_view(outcome)),
            final(self)@.outcomes == old(self)@.outcomes.push(cleanup_step_outcome(outcome_view(outcome))),
    {
        let ghost o = outcome_view(outcome);
        let mut heading = String::from_str("[TARGET] ");
        heading.append(label);
        self.push_line(heading);
        let verdict = match outcome {
            Ok(raw) => {
                let clean = trim_text(raw.as_str());
                if clean.is_empty() {
                    let mut line = String::from_str("[OK] ");
                    line.append(label);
                    line.append(" cleaned.");
                    self.push_line(line);
                    TaskOutcome::Done
                } else {
                    self.push_output_lines(clean);
                    classify_cleanup_output(clean)
                }
            },
            Err(err) => {
                let mut line = String::from_str("[FAIL] ");
                line.append(label);
                line.append(" cleanup error: ");
                line.append(trim_text(err.as_str()));
                self.push_line(line);
                TaskOutcome::Failed
            },
        };
        self.push_line(String::new());
        self.outcomes.push(verdict);
        assert(self@.lines == old(self)@.lines + cleanup_step_lines(label@, o));
    }

    /// Logs one removal of `package` that gave back `outcome`.
    pub fn record_removal(&mut self, package: &str, outcome: Result<String, String>)
        ensures
            final(self)@.lines == old(self)@.lines + removal_step_lines(package@, outcome_view(outcome)),
            final(self)@.outcomes == old(self)@.outcomes.push(removal_step_outcome(outcome_view(outcome))),
    {
        let ghost o = outcome_view(outcome);
        let verdict = match outcome {
            Ok(raw) => {
                let clean = trim_text(raw.as_str());
                if clean.is_empty() {
                    let mut line = String::from_str("[SKIP] ");
                    line.append(package);
                    line.append(" no output returned");
                    self.push_line(line);
                    TaskOutcome::Skipped
                } else {
                    self.push_output_lines(clean);
                    classify_removal_output(clean)
                }
            },
            Err(err) => {
                let mut line = String::from_str("[FAIL] ");
                line.append(package);
                line.append(" command execution failed: ");
                line.append(trim_text(err.as_str()));
                self.push_line(line);
                TaskOutcome::Failed
            },
        };
        self.push_line(String::new());
        self.outcomes.push(verdict);
        assert(self@.lines == old(self)@.lines + removal_step_lines(package@, o));
    }

    /// The result of a cache cleanup: successful when no step failed; the
    /// log's lines and a closing count, a line apart.
    pub fn finish_cleanup(self) -> (r: CommandResult)
        ensures
            r.success == (count_outcomes(self@.outcomes, TaskOutcome::Failed) == 0),
            r.output@ == joined_lines(self@.lines.push(
                "Summary: success="@ + decimal_text(count_outcomes(self@.outcomes, TaskOutcome::Done))
                    + " failed="@ + decimal_text(count_outcomes(self@.outcomes, TaskOutcome::Failed)),
            )),
    {
        let done = count_of(&self.outcomes, TaskOutcome::Done);
        let failed = count_of(&self.outcomes, TaskOutcome::Failed);
        let mut summary = String::from_str("Summary: success=");
        push_decimal(&mut summary, done as u64);
        summary.append(" failed=");
        push_decimal(&mut summary, failed as u64);
        let mut lines = self.lines;
        lines.push(summary);
        assert(views(lines@) == views(self.lines@).push(summary@));
        CommandResult { success: failed == 0, output: join_lines(&lines) }
    }

    /// The result of a package removal: successful when no step failed; the
    /// log's lines and a closing count, a line apart.
    pub fn finish_removal(self) -> (r: CommandResult)
        ensures
            r.success == (count_outcomes(self@.outcomes, TaskOutcome::Failed) == 0),
            r.output@ == joined_lines(self@.lines.push(
                "Summary: removed="@ + decimal_text(count_outcomes(self@.outcomes, TaskOutcome::Done))
                    + " skipped="@ + decimal_text(count_outcomes(self@.outcomes, TaskOutcome::Skipped))
                    + " failed="@ + decimal_text(count_outcomes(self@.outcomes, TaskOutcome::Failed)),
            )),
    {
        let done = count_of(&self.outcomes, TaskOutcome::Done);
        let skipped = count_of(&self.outcomes, TaskOutcome::Skipped);
        let failed = count_of(&self.outcomes, TaskOutcome::Failed);
        let mut summary = String::from_str("Summary: removed=");
        push_decimal(&mut summary, done as u64);
        summary.append(" skipped=");
        push_decimal(&mut summary, skipped as u64);
        summary.append(" failed=");
        push_decimal(&mut summary, failed as u64);
        let mut lines = self.lines;
        lines.push(summary);
        assert(views(lines@) == views(self.lines@).push(summary@));
        CommandResult { success: failed == 0, output: join_lines(&lines) }
    }
}

} // verus!
