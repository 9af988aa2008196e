//! Drift report rendering: a human-readable text document summarizing a
//! verification result, producible as a string and independently
//! writable.

use vstd::prelude::*;
use crate::drift::{DriftDetectionV, DriftType, VerificationResult, VerificationResultV, spec_safe};
use crate::text::{dec_of, u64_to_dec};

verus! {

/// The rendered name of a drift kind.
pub open spec fn spec_drift_type_name(t: DriftType) -> Seq<char> {
    match t {
        DriftType::SizeMismatch => "Size Mismatch"@,
        DriftType::ModificationTimeMismatch => "Modification Time Mismatch"@,
    }
}

/// One `- path` line per missing or unverifiable path.
pub open spec fn spec_path_lines(paths: Seq<Seq<char>>) -> Seq<char>
    decreases paths.len(),
{
    if paths.len() == 0 {
        Seq::<char>::empty()
    } else {
        "- "@ + paths[0] + "\n"@ + spec_path_lines(paths.skip(1))
    }
}

/// One block per drifted file: its path, the drift kind, and the
/// expected and observed values.
pub open spec fn spec_drift_blocks(ds: Seq<DriftDetectionV>) -> Seq<char>
    decreases ds.len(),
{
    if ds.len() == 0 {
        Seq::<char>::empty()
    } else {
        "### "@ + ds[0].path + "\n"@ + "Type: "@ + spec_drift_type_name(ds[0].drift_type) + "\n"@
            + "Expected: "@ + ds[0].expected + "\n"@ + "Actual: "@ + ds[0].actual + "\n\n"@
            + spec_drift_blocks(ds.skip(1))
    }
}

/// The report's header and counts.
pub open spec fn spec_report_head(v: VerificationResultV) -> Seq<char> {
    "# Plan Verification Report\n\n"@ + "Total entries: "@ + dec_of(v.total_entries) + "\n"@
        + "Verified: "@ + dec_of(v.verified) + "\n"@ + "Drifted: "@ + dec_of(
        v.drifted.len() as int,
    ) + "\n"@ + "Missing: "@ + dec_of(v.missing.len() as int) + "\n"@ + "Permission errors: "@
        + dec_of(v.permission_errors.len() as int) + "\n\n"@
}

/// The pass/fail banner.
pub open spec fn spec_report_banner(v: VerificationResultV) -> Seq<char> {
    if spec_safe(v) {
        "SAFE TO EXECUTE\n\n"@
    } else {
        "WARNING: DRIFT DETECTED - NOT SAFE TO EXECUTE\n\n"@
    }
}

/// The missing-files section; empty when nothing is missing.
pub open spec fn spec_report_missing(v: VerificationResultV) -> Seq<char> {
    if v.missing.len() == 0 {
        Seq::<char>::empty()
    } else {
        "## Missing Files\n\n"@ + "The following files were in the plan but no longer exist:\n\n"@
            + spec_path_lines(v.missing) + "\n"@
    }
}

/// The drifted-files section; empty when nothing drifted.
pub open spec fn spec_report_drifted(v: VerificationResultV) -> Seq<char> {
    if v.drifted.len() == 0 {
        Seq::<char>::empty()
    } else {
        "## Drifted Files\n\n"@
            + "The following files have changed since the plan was created:\n\n"@
            + spec_drift_blocks(v.drifted)
    }
}

/// The permission-warnings section; empty without warnings.
pub open spec fn spec_report_permissions(v: VerificationResultV) -> Seq<char> {
    if v.permission_errors.len() == 0 {
        Seq::<char>::empty()
    } else {
        "## Permission Warnings\n\n"@
            + "The following files could not be verified due to permission errors.\n"@
            + "These are warnings only and will not block execution:\n\n"@ + spec_path_lines(
            v.permission_errors,
        ) + "\n"@
    }
}

/// The remediation guidance; present exactly when the plan is unsafe.
pub open spec fn spec_report_recommendations(v: VerificationResultV) -> Seq<char> {
    if spec_safe(v) {
        Seq::<char>::empty()
    } else {
        "## Recommendations\n\n"@ + "The plan cannot be safely executed due to detected drift.\n"@
            + "Consider one of the following actions:\n\n"@
            + "1. Re-scan the directory to generate a fresh plan\n"@
            + "2. Manually review the changes and update the plan file\n"@
            + "3. If changes are expected, use --skip-verify flag (not recommended)\n\n"@
    }
}

/// The whole report: header, counts, banner, then the missing, drifted
/// and permission sections, and remediation guidance when unsafe.
pub open spec fn spec_report(v: VerificationResultV) -> Seq<char> {
    spec_report_head(v) + spec_report_banner(v) + spec_report_missing(v) + spec_report_drifted(v)
        + spec_report_permissions(v) + spec_report_recommendations(v)
}

/// Generator for human-readable drift reports.
pub struct DriftReporter;

impl DriftReporter {
    /// Generate a human-readable drift report from verification results.
    pub fn generate_report(result: &VerificationResult) -> (r: String)
        ensures
            r@ == spec_report(result@),
    {
        let mut out = String::new();
        append_head(&mut out, result);
        append_banner(&mut out, result);
        append_missing(&mut out, result);
        append_drifted(&mut out, result);
        append_permissions(&mut out, result);
        append_recommendations(&mut out, result);
        proof {
            assert(out@ =~= spec_report(result@));
        }
        out
    }
}

fn append_head(out: &mut String, result: &VerificationResult)
    ensures
        final(out)@ == old(out)@ + spec_report_head(result@),
{
    out.append("# Plan Verification Report\n\n");
    out.append("Total entries: ");
    let d1 = u64_to_dec(result.total_entries as u64);
    out.append(d1.as_str());
    out.append("\n");
    out.append("Verified: ");
    let d2 = u64_to_dec(result.verified as u64);
    out.append(d2.as_str());
    out.append("\n");
    out.append("Drifted: ");
    let d3 = u64_to_dec(result.drifted.len() as u64);
    out.append(d3.as_str());
    out.append("\n");
    out.append("Missing: ");
    let d4 = u64_to_dec(result.missing.len() as u64);
    out.append(d4.as_str());
    out.append("\n");
    out.append("Permission errors: ");
    let d5 = u64_to_dec(result.permission_errors.len() as u64);
    out.append(d5.as_str());
    out.append("\n\n");
    proof {
        assert(result@.drifted.len() == result.drifted@.len());
        assert(result@.missing.len() == result.missing@.len());
        assert(result@.permission_errors.len() == result.permission_errors@.len());
        assert(out@ =~= old(out)@ + spec_report_head(result@));
    }
}

fn append_banner(out: &mut String, result: &VerificationResult)
    ensures
        final(out)@ == old(out)@ + spec_report_banner(result@),
{
    if result.is_safe_to_execute() {
        out.append("SAFE TO EXECUTE\n\n");
    } else {
        out.append("WARNING: DRIFT DETECTED - NOT SAFE TO EXECUTE\n\n");
    }
}

fn append_missing(out: &mut String, result: &VerificationResult)
    ensures
        final(out)@ == old(out)@ + spec_report_missing(result@),
{
    if result.missing.len() == 0 {
        proof {
            assert(result@.missing.len() == 0);
            assert(old(out)@ + spec_report_missing(result@) =~= out@);
        }
        return;
    }
    out.append("## Missing Files\n\n");
    out.append("The following files were in the plan but no longer exist:\n\n");
    append_path_lines(out, &result.missing);
    out.append("\n");
    proof {
        assert(result@.missing.len() > 0);
        assert(out@ =~= old(out)@ + spec_report_missing(result@));
    }
}

fn append_permissions(out: &mut String, result: &VerificationResult)
    ensures
        final(out)@ == old(out)@ + spec_report_permissions(result@),
{
    if result.permission_errors.len() == 0 {
        proof {
            assert(result@.permission_errors.len() == 0);
            assert(old(out)@ + spec_report_permissions(result@) =~= out@);
        }
        return;
    }
    out.append("## Permission Warnings\n\n");
    out.append("The following files could not be verified due to permission errors.\n");
    out.append("These are warnings only and will not block execution:\n\n");
    append_path_lines(out, &result.permission_errors);
    out.append("\n");
    proof {
        assert(result@.permission_errors.len() > 0);
        assert(out@ =~= old(out)@ + spec_report_permissions(result@));
    }
}

fn append_path_lines(out: &mut String, paths: &Vec<String>)
    ensures
        final(out)@ == old(out)@ + spec_path_lines(paths.deep_view()),
{
    let mut i: usize = 0;
    proof {
        assert(paths.deep_view().skip(0) =~= paths.deep_view());
    }
    while i < paths.len()
        invariant
            i <= paths@.len(),
            paths.deep_view().len() == paths@.len(),
            out@ + spec_path_lines(paths.deep_view().skip(i as int)) == old(out)@
                + spec_path_lines(paths.deep_view()),
        decreases paths@.len() - i,
    {
        proof {
            let suf = paths.deep_view().skip(i as int);
            assert(suf.len() > 0);
            assert(suf[0] == paths.deep_view()[i as int]);
            assert(paths.deep_view()[i as int] == paths@[i as int].deep_view());
            assert(suf.skip(1) =~= paths.deep_view().skip(i + 1 as int));
        }
        let ghost o0 = out@;
        out.append("- ");
        out.append(paths[i].as_str());
        out.append("\n");
        proof {
            assert(o0 + ("- "@ + paths.deep_view()[i as int] + "\n"@ + spec_path_lines(
                paths.deep_view().skip(i + 1 as int),
            )) =~= out@ + spec_path_lines(paths.deep_view().skip(i + 1 as int)));
        }
        i = i + 1;
    }
    proof {
        assert(paths.deep_view().skip(paths@.len() as int) =~= Seq::<Seq<char>>::empty());
        assert(out@ + Seq::<char>::empty() =~= out@);
    }
}

fn append_drifted(out: &mut String, result: &VerificationResult)
    ensures
        final(out)@ == old(out)@ + spec_report_drifted(result@),
{
    if result.drifted.len() == 0 {
        proof {
            assert(result@.drifted.len() == 0);
            assert(old(out)@ + spec_report_drifted(result@) =~= out@);
        }
        return;
    }
    out.append("## Drifted Files\n\n");
    out.append("The following files have changed since the plan was created:\n\n");
    let mut i: usize = 0;
    let ghost mid = out@;
    proof {
        assert(result@.drifted.skip(0) =~= result@.drifted);
    }
    while i < result.drifted.len()
        invariant
            i <= result.drifted@.len(),
            result@.drifted.len() == result.drifted@.len(),
            out@ + spec_drift_blocks(result@.drifted.skip(i as int)) == mid + spec_drift_blocks(
                result@.drifted,
            ),
        decreases result.drifted@.len() - i,
    {
        proof {
            let suf = result@.drifted.skip(i as int);
            assert(suf.len() > 0);
            assert(suf[0] == result@.drifted[i as int]);
            assert(result@.drifted[i as int] == result.drifted@[i as int].deep_view());
            assert(suf.skip(1) =~= result@.drifted.skip(i + 1 as int));
        }
        let ghost o0 = out@;
        let d = &result.drifted[i];
        out.append("### ");
        out.append(d.path.as_str());
        out.append("\n");
        out.append("Type: ");
        match d.drift_type {
            DriftType::SizeMismatch => out.append("Size Mismatch"),
            DriftType::ModificationTimeMismatch => out.append("Modification Time Mismatch"),
        }
        out.append("\n");
        out.append("Expected: ");
        out.append(d.expected.as_str());
        out.append("\n");
        out.append("Actual: ");
        out.append(d.actual.as_str());
        out.append("\n\n");
        proof {
            let dv = result@.drifted[i as int];
            assert(o0 + ("### "@ + dv.path + "\n"@ + "Type: "@ + spec_drift_type_name(
                dv.drift_type,
            ) + "\n"@ + "Expected: "@ + dv.expected + "\n"@ + "Actual: "@ + dv.actual + "\n\n"@
                + spec_drift_blocks(result@.drifted.skip(i + 1 as int))) =~= out@
                + spec_drift_blocks(result@.drifted.skip(i + 1 as int)));
        }
        i = i + 1;
    }
    proof {
        assert(result@.drifted.skip(result.drifted@.len() as int) =~= Seq::<
            DriftDetectionV,
        >::empty());
        assert(out@ + Seq::<char>::empty() =~= out@);
        assert(result@.drifted.len() > 0);
        assert(out@ =~= old(out)@ + spec_report_drifted(result@));
    }
}

fn append_recommendations(out: &mut String, result: &VerificationResult)
    ensures
        final(out)@ == old(out)@ + spec_report_recommendations(result@),
{
    if result.is_safe_to_execute() {
        proof {
            assert(old(out)@ + spec_report_recommendations(result@) =~= out@);
        }
        return;
    }
    out.append("## Recommendations\n\n");
    out.append("The plan cannot be safely executed due to detected drift.\n");
    out.append("Consider one of the following actions:\n\n");
    out.append("1. Re-scan the directory to generate a fresh plan\n");
    out.append("2. Manually review the changes and update the plan file\n");
    out.append("3. If changes are expected, use --skip-verify flag (not recommended)\n\n");
    proof {
        assert(out@ =~= old(out)@ + spec_report_recommendations(result@));
    }
}

} // verus!
