//! Report builder: renders the outcome of one run as a single self-contained
//! HTML document. Each diff artifact becomes one block holding the setting's
//! name, its changed-pixel percentage, and the diff image embedded inline as
//! a base64 data URI; each failure becomes one visibly flagged block.

use vstd::arithmetic::div_mod::lemma_div_is_ordered;
use vstd::arithmetic::div_mod::lemma_div_multiples_vanish;
use vstd::prelude::*;
use vstd::string::StringExecFns;

use crate::diff::DiffResult;
use crate::outside::base64_encode;
use crate::outside::base64_of;
use crate::outside::png_encode;
use crate::outside::png_of;
use crate::pipeline::Failure;
use crate::pipeline::FailureReason;
use crate::pipeline::RunOutcome;
use crate::watch::Report;

verus! {

/// The decimal digit character for a value below ten.
pub open spec fn digit_char(d: int) -> char {
    if d == 0 {
        '0'
    } else if d == 1 {
        '1'
    } else if d == 2 {
        '2'
    } else if d == 3 {
        '3'
    } else if d == 4 {
        '4'
    } else if d == 5 {
        '5'
    } else if d == 6 {
        '6'
    } else if d == 7 {
        '7'
    } else if d == 8 {
        '8'
    } else {
        '9'
    }
}

/// The decimal rendering of a non-negative number, most significant digit
/// first.
pub open spec fn dec_str(n: int) -> Seq<char>
    decreases n,
{
    if n < 0 {
        Seq::empty()
    } else if n < 10 {
        seq![digit_char(n)]
    } else {
        dec_str(n / 10) + seq![digit_char(n % 10)]
    }
}

/// The changed share of a diff, as a whole percentage; zero for an empty
/// canvas.
pub open spec fn percent_of(changed: int, total: int) -> int {
    if total <= 0 {
        0
    } else {
        changed * 100 / total
    }
}

/// A changed count never exceeds its total, so the percentage stays within
/// a hundred.
pub proof fn lemma_percent_bounds(changed: int, total: int)
    requires
        0 <= changed <= total,
    ensures
        0 <= percent_of(changed, total) <= 100,
{
    if total > 0 {
        assert(changed * 100 <= total * 100) by (nonlinear_arith)
            requires
                0 <= changed <= total,
        ;
        assert(0 <= changed * 100) by (nonlinear_arith)
            requires
                0 <= changed,
        ;
        lemma_div_is_ordered(changed * 100, total * 100, total);
        lemma_div_multiples_vanish(100, total);
        assert(total * 100 == 100 * total) by (nonlinear_arith);
    }
}

fn append_digit(s: &mut String, d: u8)
    requires
        d < 10,
    ensures
        final(s)@ == old(s)@ + seq![digit_char(d as int)],
{
    proof {
        reveal_strlit("0");
        reveal_strlit("1");
        reveal_strlit("2");
        reveal_strlit("3");
        reveal_strlit("4");
        reveal_strlit("5");
        reveal_strlit("6");
        reveal_strlit("7");
        reveal_strlit("8");
        reveal_strlit("9");
    }
    match d {
        0 => s.append("0"),
        1 => s.append("1"),
        2 => s.append("2"),
        3 => s.append("3"),
        4 => s.append("4"),
        5 => s.append("5"),
        6 => s.append("6"),
        7 => s.append("7"),
        8 => s.append("8"),
        _ => s.append("9"),
    }
    proof {
        assert(s@ =~= old(s)@ + seq![digit_char(d as int)]);
    }
}

/// Appends the decimal rendering of a percentage.
fn append_percent(s: &mut String, n: u64)
    requires
        n <= 100,
    ensures
        final(s)@ == old(s)@ + dec_str(n as int),
{
    if n >= 100 {
        proof {
            assert(dec_str(100) == dec_str(10) + seq![digit_char(0)]);
            assert(dec_str(10) == dec_str(1) + seq![digit_char(0)]);
            assert(dec_str(1) == seq![digit_char(1)]);
        }
        append_digit(s, 1);
        append_digit(s, 0);
        append_digit(s, 0);
        proof {
            assert(s@ =~= old(s)@ + dec_str(100));
        }
    } else if n >= 10 {
        let hi: u8 = (n / 10) as u8;
        let lo: u8 = (n % 10) as u8;
        append_digit(s, hi);
        append_digit(s, lo);
        proof {
            assert(dec_str(n as int) == dec_str(n as int / 10) + seq![digit_char(n as int % 10)]);
            assert(s@ =~= old(s)@ + dec_str(n as int));
        }
    } else {
        append_digit(s, n as u8);
    }
}

/// The label a failure block shows for its reason.
pub open spec fn reason_label(r: FailureReason) -> Seq<char> {
    match r {
        FailureReason::ReferenceImageMissing => "reference image missing"@,
        FailureReason::ReferenceImageUndecodable => "reference image undecodable"@,
        FailureReason::CaptureFailed => "capture failed"@,
        FailureReason::DiffFailed => "diff failed"@,
    }
}

/// One rendered block of the report for one diff artifact.
pub open spec fn result_block(d: DiffResult) -> Seq<char> {
    "<div><p>"@ + d.setting_name@ + ": "@ + dec_str(
        percent_of(d.changed_pixel_count as int, d.total_pixel_count as int),
    ) + "% changed</p><img src=\"data:image/png;base64,"@ + base64_of(
        png_of(d.diff_image.spec_width(), d.diff_image.spec_height(), d.diff_image.spec_pixels()),
    ) + "\"></div>\n"@
}

/// One rendered block of the report for one per-setting failure.
pub open spec fn failure_block(f: Failure) -> Seq<char> {
    "<div><p>"@ + f.setting_name@ + ": failed ("@ + reason_label(f.reason) + ")</p></div>\n"@
}

/// The blocks of all diff artifacts, in run order.
pub open spec fn result_blocks(rs: Seq<DiffResult>) -> Seq<char>
    decreases rs.len(),
{
    if rs.len() == 0 {
        Seq::empty()
    } else {
        result_blocks(rs.drop_last()) + result_block(rs.last())
    }
}

/// The blocks of all per-setting failures, in run order.
pub open spec fn failure_blocks(fs: Seq<Failure>) -> Seq<char>
    decreases fs.len(),
{
    if fs.len() == 0 {
        Seq::empty()
    } else {
        failure_blocks(fs.drop_last()) + failure_block(fs.last())
    }
}

pub open spec fn page_header() -> Seq<char> {
    "<html><head><title>quokka report</title></head><body>\n"@
}

pub open spec fn page_footer() -> Seq<char> {
    "</body></html>\n"@
}

/// The whole document an outcome renders to: a function of the ordered diff
/// results and failures alone.
pub open spec fn report_html(results: Seq<DiffResult>, failures: Seq<Failure>) -> Seq<char> {
    page_header() + result_blocks(results) + failure_blocks(failures) + page_footer()
}

/// The report builder is deterministic: equal ordered results and failures
/// render byte-identical documents.
pub proof fn lemma_report_deterministic(
    r1: Seq<DiffResult>,
    f1: Seq<Failure>,
    r2: Seq<DiffResult>,
    f2: Seq<Failure>,
)
    requires
        r1 == r2,
        f1 == f2,
    ensures
        report_html(r1, f1) == report_html(r2, f2),
{
}

/// Renders the outcome of one run as a single self-contained HTML document.
pub fn generate_html(outcome: &RunOutcome) -> (r: Report)
    requires
        outcome.wf(),
    ensures
        r.html@ == report_html(outcome.results@, outcome.failures@),
{
    let mut s = String::new();
    proof {
        reveal_strlit("<html><head><title>quokka report</title></head><body>\n");
    }
    s.append("<html><head><title>quokka report</title></head><body>\n");
    let mut i: usize = 0;
    while i < outcome.results.len()
        invariant
            outcome.wf(),
            i <= outcome.results@.len(),
            s@ == page_header() + result_blocks(outcome.results@.subrange(0, i as int)),
        decreases outcome.results@.len() - i,
    {
        let d = &outcome.results[i];
        proof {
            reveal_strlit("<div><p>");
            reveal_strlit(": ");
            reveal_strlit("% changed</p><img src=\"data:image/png;base64,");
            reveal_strlit("\"></div>\n");
            lemma_percent_bounds(d.changed_pixel_count as int, d.total_pixel_count as int);
        }
        s.append("<div><p>");
        s.append(d.setting_name.as_str());
        s.append(": ");
        let pct: u64 = if d.total_pixel_count == 0 {
            0
        } else {
            (((d.changed_pixel_count as u128) * 100) / (d.total_pixel_count as u128)) as u64
        };
        append_percent(&mut s, pct);
        s.append("% changed</p><img src=\"data:image/png;base64,");
        let png = png_encode(&d.diff_image);
        let b64 = base64_encode(&png);
        s.append(b64.as_str());
        s.append("\"></div>\n");
        proof {
            let rs = outcome.results@;
            assert(rs.subrange(0, i + 1).drop_last() =~= rs.subrange(0, i as int));
            assert(rs.subrange(0, i + 1).last() == rs[i as int]);
            assert(result_blocks(rs.subrange(0, i + 1)) == result_blocks(rs.subrange(0, i as int))
                + result_block(rs[i as int]));
            assert(s@ =~= page_header() + result_blocks(rs.subrange(0, i + 1)));
        }
        i = i + 1;
    }
    proof {
        assert(outcome.results@.subrange(0, outcome.results@.len() as int) =~= outcome.results@);
    }
    let mut j: usize = 0;
    while j < outcome.failures.len()
        invariant
            outcome.wf(),
            j <= outcome.failures@.len(),
            s@ == page_header() + result_blocks(outcome.results@) + failure_blocks(
                outcome.failures@.subrange(0, j as int),
            ),
        decreases outcome.failures@.len() - j,
    {
        let f = &outcome.failures[j];
        proof {
            reveal_strlit("<div><p>");
            reveal_strlit(": failed (");
            reveal_strlit(")</p></div>\n");
            reveal_strlit("reference image missing");
            reveal_strlit("reference image undecodable");
            reveal_strlit("capture failed");
            reveal_strlit("diff failed");
        }
        s.append("<div><p>");
        s.append(f.setting_name.as_str());
        s.append(": failed (");
        match f.reason {
            FailureReason::ReferenceImageMissing => s.append("reference image missing"),
            FailureReason::ReferenceImageUndecodable => s.append("reference image undecodable"),
            FailureReason::CaptureFailed => s.append("capture failed"),
            FailureReason::DiffFailed => s.append("diff failed"),
        }
        s.append(")</p></div>\n");
        proof {
            let fs = outcome.failures@;
            assert(fs.subrange(0, j + 1).drop_last() =~= fs.subrange(0, j as int));
            assert(fs.subrange(0, j + 1).last() == fs[j as int]);
            assert(failure_blocks(fs.subrange(0, j + 1)) == failure_blocks(
                fs.subrange(0, j as int),
            ) + failure_block(fs[j as int]));
            assert(s@ =~= page_header() + result_blocks(outcome.results@) + failure_blocks(
                fs.subrange(0, j + 1),
            ));
        }
        j = j + 1;
    }
    proof {
        assert(outcome.failures@.subrange(0, outcome.failures@.len() as int)
            =~= outcome.failures@);
        reveal_strlit("</body></html>\n");
    }
    s.append("</body></html>\n");
    proof {
        assert(s@ =~= report_html(outcome.results@, outcome.failures@));
    }
    Report { html: s }
}

} // verus!
