//! Progress-bar templates and the end-of-run summary of a populate run.
use vstd::prelude::*;

use crate::text::{chars_of, dec_digits, extend_chars, push_dec_u64, string_of};

verus! {

pub open spec fn populate_style_text() -> Seq<char> {
    "{msg}  {bar:40.cyan/blue}  {pos}/{len} ({percent}%, ETA: {eta})"@
}

pub open spec fn make_list_style_text() -> Seq<char> {
    "{msg}  {bar:40.cyan/blue}  {pos}/{len} ({percent}%, {per_sec}, ETA: {eta})"@
}

pub open spec fn download_aggregate_style_text() -> Seq<char> {
    "{msg}  {bar:40.cyan/blue}  {pos}/{len} ({percent}%, ETA: {eta})"@
}

/// Template of the bar that follows the populate downloads.
pub fn populate_style() -> (r: &'static str)
    ensures
        r@ == populate_style_text(),
{
    "{msg}  {bar:40.cyan/blue}  {pos}/{len} ({percent}%, ETA: {eta})"
}

/// Template of the bar that follows building the download list.
pub fn make_list_style() -> (r: &'static str)
    ensures
        r@ == make_list_style_text(),
{
    "{msg}  {bar:40.cyan/blue}  {pos}/{len} ({percent}%, {per_sec}, ETA: {eta})"
}

/// Template of the aggregate download bar.
pub fn download_aggregate_style() -> (r: &'static str)
    ensures
        r@ == download_aggregate_style_text(),
{
    "{msg}  {bar:40.cyan/blue}  {pos}/{len} ({percent}%, ETA: {eta})"
}

pub struct PopulateStats {
    pub total: usize,
    pub succeeded: usize,
    pub retried: usize,
    pub recovered: usize,
    pub failed: usize,
    pub elapsed: std::time::Duration,
}

#[derive(Debug, Clone)]
pub struct FailedItem {
    pub path: String,
    pub version: Option<String>,
    pub error: String,
}

/// The whole seconds of a duration, as `Duration::as_secs` gives them.
pub uninterp spec fn elapsed_secs(d: std::time::Duration) -> u64;

/// `Duration::as_secs`: the whole seconds of a duration. `Duration` has no
/// model here, so the value is named `elapsed_secs` of the duration.
#[verifier::external_body]
fn whole_seconds(d: &std::time::Duration) -> (s: u64)
    ensures
        s == elapsed_secs(*d),
{
    d.as_secs()
}

/// A duration of `secs` whole seconds: `42s` under a minute, else `3m 7s`.
pub open spec fn duration_text(secs: nat) -> Seq<char> {
    if secs < 60 {
        dec_digits(secs) + "s"@
    } else {
        dec_digits(secs / 60) + "m "@ + dec_digits(secs % 60) + "s"@
    }
}

pub fn format_duration_secs(secs: u64) -> (r: String)
    ensures
        r@ == duration_text(secs as nat),
{
    let mut out: Vec<char> = Vec::new();
    if secs < 60 {
        push_dec_u64(&mut out, secs);
        extend_chars(&mut out, chars_of("s").as_slice());
    } else {
        push_dec_u64(&mut out, secs / 60);
        extend_chars(&mut out, chars_of("m ").as_slice());
        push_dec_u64(&mut out, secs % 60);
        extend_chars(&mut out, chars_of("s").as_slice());
    }
    string_of(out.as_slice())
}

pub fn format_duration(d: std::time::Duration) -> (r: String)
    ensures
        r@ == duration_text(elapsed_secs(d) as nat),
{
    format_duration_secs(whole_seconds(&d))
}

pub open spec fn summary_header() -> Seq<char> {
    "── Populate Summary ─────────────────────"@
}

/// The counts line: total and OK always; retried and recovered when there
/// were retries; failed when something failed; then the elapsed time.
pub open spec fn counts_line(
    total: nat,
    succeeded: nat,
    retried: nat,
    recovered: nat,
    failed: nat,
    secs: nat,
) -> Seq<char> {
    let sep = " │ "@;
    let head = "Total: "@ + dec_digits(total) + sep + "OK: "@ + dec_digits(succeeded);
    let with_retry = if retried > 0 {
        head + sep + "Retried: "@ + dec_digits(retried) + sep + "Recovered: "@ + dec_digits(
            recovered,
        )
    } else {
        head
    };
    let with_failed = if failed > 0 {
        with_retry + sep + "Failed: "@ + dec_digits(failed)
    } else {
        with_retry
    };
    with_failed + sep + "Time: "@ + duration_text(secs)
}

pub open spec fn failure_line(f: FailedItem) -> Seq<char> {
    "  ✗ "@ + f.path@ + " ("@ + f.error@ + ")"@
}

pub open spec fn summary_lines(stats: PopulateStats, secs: nat, failures: Seq<FailedItem>) -> Seq<
    Seq<char>,
> {
    let top = seq![
        summary_header(),
        counts_line(
            stats.total as nat,
            stats.succeeded as nat,
            stats.retried as nat,
            stats.recovered as nat,
            stats.failed as nat,
            secs,
        ),
    ];
    if failures.len() == 0 {
        top
    } else {
        top + seq![Seq::<char>::empty(), "Failed files:"@] + failures.map_values(
            |f: FailedItem| failure_line(f),
        )
    }
}

fn push_labelled(out: &mut Vec<char>, sep: bool, label: &str, n: usize)
    ensures
        final(out)@ == old(out)@ + (if sep {
            " │ "@
        } else {
            Seq::<char>::empty()
        }) + label@ + dec_digits(n as nat),
{
    if sep {
        extend_chars(out, chars_of(" │ ").as_slice());
    }
    extend_chars(out, chars_of(label).as_slice());
    push_dec_u64(out, n as u64);
    assert(final(out)@ =~= old(out)@ + (if sep {
        " │ "@
    } else {
        Seq::<char>::empty()
    }) + label@ + dec_digits(n as nat));
}

fn counts_line_exec(stats: &PopulateStats, secs: u64) -> (r: String)
    ensures
        r@ == counts_line(
            stats.total as nat,
            stats.succeeded as nat,
            stats.retried as nat,
            stats.recovered as nat,
            stats.failed as nat,
            secs as nat,
        ),
{
    let mut out: Vec<char> = Vec::new();
    push_labelled(&mut out, false, "Total: ", stats.total);
    push_labelled(&mut out, true, "OK: ", stats.succeeded);
    if stats.retried > 0 {
        push_labelled(&mut out, true, "Retried: ", stats.retried);
        push_labelled(&mut out, true, "Recovered: ", stats.recovered);
    }
    if stats.failed > 0 {
        push_labelled(&mut out, true, "Failed: ", stats.failed);
    }
    extend_chars(&mut out, chars_of(" │ ").as_slice());
    extend_chars(&mut out, chars_of("Time: ").as_slice());
    let t = format_duration_secs(secs);
    extend_chars(&mut out, chars_of(t.as_str()).as_slice());
    assert(out@ =~= counts_line(
        stats.total as nat,
        stats.succeeded as nat,
        stats.retried as nat,
        stats.recovered as nat,
        stats.failed as nat,
        secs as nat,
    ));
    string_of(out.as_slice())
}

fn failure_line_exec(f: &FailedItem) -> (r: String)
    ensures
        r@ == failure_line(*f),
{
    let mut out = chars_of("  ✗ ");
    extend_chars(&mut out, chars_of(f.path.as_str()).as_slice());
    extend_chars(&mut out, chars_of(" (").as_slice());
    extend_chars(&mut out, chars_of(f.error.as_str()).as_slice());
    extend_chars(&mut out, chars_of(")").as_slice());
    string_of(out.as_slice())
}

pub open spec fn string_views(v: Seq<String>) -> Seq<Seq<char>> {
    v.map_values(|s: String| s@)
}

/// The lines of the end-of-run summary.
pub fn build_summary_lines(stats: &PopulateStats, failures: &[FailedItem]) -> (lines: Vec<String>)
    ensures
        string_views(lines@) == summary_lines(
            *stats,
            elapsed_secs(stats.elapsed) as nat,
            failures@,
        ),
{
    let secs = whole_seconds(&stats.elapsed);
    let mut lines: Vec<String> = Vec::new();
    lines.push("── Populate Summary ─────────────────────".to_owned());
    lines.push(counts_line_exec(stats, secs));
    let ghost top = string_views(lines@);
    assert(top =~= seq![
        summary_header(),
        counts_line(
            stats.total as nat,
            stats.succeeded as nat,
            stats.retried as nat,
            stats.recovered as nat,
            stats.failed as nat,
            secs as nat,
        ),
    ]);
    if failures.len() > 0 {
        lines.push(String::new());
        lines.push("Failed files:".to_owned());
        let ghost head = string_views(lines@);
        let mut i: usize = 0;
        while i < failures.len()
            invariant
                i <= failures@.len(),
                string_views(lines@) == head + failures@.take(i as int).map_values(
                    |f: FailedItem| failure_line(f),
                ),
            decreases failures@.len() - i,
        {
            let line = failure_line_exec(&failures[i]);
            let ghost prev = lines@;
            lines.push(line);
            assert(string_views(lines@) =~= string_views(prev).push(line@));
            assert(failures@.take(i as int + 1).map_values(|f: FailedItem| failure_line(f))
                =~= failures@.take(i as int).map_values(|f: FailedItem| failure_line(f)).push(
                failure_line(failures@[i as int]),
            ));
            assert(string_views(lines@) =~= head + failures@.take(i as int + 1).map_values(
                |f: FailedItem| failure_line(f),
            ));
            i += 1;
        }
        assert(failures@.take(failures@.len() as int) =~= failures@);
        assert(string_views(lines@) =~= summary_lines(*stats, secs as nat, failures@));
    } else {
        assert(string_views(lines@) =~= summary_lines(*stats, secs as nat, failures@));
    }
    lines
}


/// The stats bar's message: downloads in flight out of the allowed, and errors.
pub open spec fn stats_text(active: nat, max_concurrent: nat, errors: nat) -> Seq<char> {
    dec_digits(active) + "/"@ + dec_digits(max_concurrent) + " active │ "@ + dec_digits(errors) + " errors"@
}

pub fn stats_message(active: usize, max_concurrent: usize, errors: usize) -> (r: String)
    ensures
        r@ == stats_text(active as nat, max_concurrent as nat, errors as nat),
{
    let mut out: Vec<char> = Vec::new();
    push_dec_u64(&mut out, active as u64);
    extend_chars(&mut out, chars_of("/").as_slice());
    push_dec_u64(&mut out, max_concurrent as u64);
    extend_chars(&mut out, chars_of(" active │ ").as_slice());
    push_dec_u64(&mut out, errors as u64);
    extend_chars(&mut out, chars_of(" errors").as_slice());
    assert(out@ =~= stats_text(active as nat, max_concurrent as nat, errors as nat));
    string_of(out.as_slice())
}

} // verus!
