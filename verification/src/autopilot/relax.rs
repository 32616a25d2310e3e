//! Loosening the filters that older versions filled in by themselves.
use vstd::prelude::*;

use crate::autopilot::model::{Autopilot, AutopilotView, FilterView, TargetView};
use crate::json::Real;
use crate::text::{owned, str_eq};

verus! {

/// Whether a record still has the minimum score that used to be filled in.
pub open spec fn has_old_score(ap: AutopilotView) -> bool {
    ap.filter.min_match_score == "50.0"@
}

/// Whether a record still has the date filter that used to be filled in.
pub open spec fn has_old_date(ap: AutopilotView) -> bool {
    ap.target.date_filter == Some("24h"@)
}

/// A record with the filters that used to be filled in taken out. The keywords go where either
/// of the two other filters shows that the record is an old one.
pub open spec fn relaxed(ap: AutopilotView) -> AutopilotView {
    AutopilotView {
        filter: FilterView {
            keywords: if has_old_score(ap) || has_old_date(ap) {
                None
            } else {
                ap.filter.keywords
            },
            min_match_score: if has_old_score(ap) {
                "0.0"@
            } else {
                ap.filter.min_match_score
            },
            ..ap.filter
        },
        target: TargetView {
            date_filter: if has_old_date(ap) {
                None
            } else {
                ap.target.date_filter
            },
            ..ap.target
        },
        ..ap
    }
}

/// Takes the filters that used to be filled in out of a record.
pub fn relax_legacy_filters(ap: &mut Autopilot)
    ensures
        final(ap)@ == relaxed(old(ap)@),
{
    let old_score: bool = str_eq(ap.filter.min_match_score.text.as_str(), "50.0");
    let old_date: bool = match &ap.target.date_filter {
        Some(d) => str_eq(d.as_str(), "24h"),
        None => false,
    };
    if old_score || old_date {
        ap.filter.keywords = None;
    }
    if old_score {
        ap.filter.min_match_score = Real { text: owned("0.0") };
    }
    if old_date {
        ap.target.date_filter = None;
    }
}

/// Taking the old filters out a second time changes nothing, so a repeated pass cannot erase
/// what the user has set since.
pub proof fn relaxed_is_final(ap: AutopilotView)
    ensures
        relaxed(relaxed(ap)) == relaxed(ap),
        !has_old_score(relaxed(ap)),
        !has_old_date(relaxed(ap)),
{
    reveal_strlit("50.0");
    reveal_strlit("0.0");
    assert("0.0"@ != "50.0"@) by {
        assert("0.0"@.len() == 3);
        assert("50.0"@.len() == 4);
    }
    assert(relaxed(relaxed(ap)) =~= relaxed(ap));
}

/// A record without the old filters stays as it is, its keywords too.
pub proof fn relaxed_leaves_others(ap: AutopilotView)
    requires
        !has_old_score(ap),
        !has_old_date(ap),
    ensures
        relaxed(ap) == ap,
{
    assert(relaxed(ap) =~= ap);
}

} // verus!
