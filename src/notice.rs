//! Classification of gift-subscription notices and the recipient filter.
use vstd::prelude::*;
use crate::order::{compare_names, NameOrder};

verus! {

/// The kind of a notice, as far as gifts are concerned.
#[derive(Clone, Copy, Debug, PartialEq, Eq, Structural)]
pub enum GiftKind {
    SubGift,
    AnonSubGift,
    Unknown,
}

/// The subscription tier of a notice.
#[derive(Clone, Copy, Debug, PartialEq, Eq, Structural)]
pub enum SubPlan {
    Prime,
    Tier1,
    Tier2,
    Tier3,
    Unknown,
}

/// The kind that a raw `msg-id` value stands for.
pub open spec fn gift_kind_of(raw: Option<Seq<char>>) -> GiftKind {
    match raw {
        Some(s) => if s == "subgift"@ {
            GiftKind::SubGift
        } else if s == "anonsubgift"@ {
            GiftKind::AnonSubGift
        } else {
            GiftKind::Unknown
        },
        None => GiftKind::Unknown,
    }
}

/// The tier that a raw `msg-param-sub-plan` value stands for.
pub open spec fn sub_plan_of(raw: Option<Seq<char>>) -> SubPlan {
    match raw {
        Some(s) => if s == "Prime"@ {
            SubPlan::Prime
        } else if s == "Tier1"@ {
            SubPlan::Tier1
        } else if s == "Tier2"@ {
            SubPlan::Tier2
        } else if s == "Tier3"@ {
            SubPlan::Tier3
        } else {
            SubPlan::Unknown
        },
        None => SubPlan::Unknown,
    }
}

/// The text of an optional string.
pub open spec fn opt_text(s: Option<&str>) -> Option<Seq<char>> {
    match s {
        Some(t) => Some(t@),
        None => None,
    }
}

/// The text of an optional owned string.
pub open spec fn opt_string_text(s: Option<String>) -> Option<Seq<char>> {
    match s {
        Some(t) => Some(t@),
        None => None,
    }
}

fn same_text(a: &str, b: &str) -> (r: bool)
    ensures
        r == (a@ == b@),
{
    compare_names(a, b) == NameOrder::Equal
}

/// Classifies a raw notice kind: only the exact texts `subgift` and `anonsubgift` are gifts.
pub fn classify_gift_kind(raw: Option<&str>) -> (r: GiftKind)
    ensures
        r == gift_kind_of(opt_text(raw)),
{
    match raw {
        Some(s) => if same_text(s, "subgift") {
            GiftKind::SubGift
        } else if same_text(s, "anonsubgift") {
            GiftKind::AnonSubGift
        } else {
            GiftKind::Unknown
        },
        None => GiftKind::Unknown,
    }
}

/// Classifies a raw subscription plan: `Prime`, `Tier1`, `Tier2`, `Tier3`, else unknown.
pub fn classify_plan(raw: Option<&str>) -> (r: SubPlan)
    ensures
        r == sub_plan_of(opt_text(raw)),
{
    match raw {
        Some(s) => if same_text(s, "Prime") {
            SubPlan::Prime
        } else if same_text(s, "Tier1") {
            SubPlan::Tier1
        } else if same_text(s, "Tier2") {
            SubPlan::Tier2
        } else if same_text(s, "Tier3") {
            SubPlan::Tier3
        } else {
            SubPlan::Unknown
        },
        None => SubPlan::Unknown,
    }
}

/// The label that names a gift kind in the log.
pub open spec fn gift_label(kind: GiftKind) -> Seq<char> {
    match kind {
        GiftKind::SubGift => "sub gift"@,
        GiftKind::AnonSubGift => "anonymous sub gift"@,
        GiftKind::Unknown => "unknown"@,
    }
}

/// The label that names a subscription tier in the log.
pub open spec fn plan_label(plan: SubPlan) -> Seq<char> {
    match plan {
        SubPlan::Prime => "prime"@,
        SubPlan::Tier1 => "tier1"@,
        SubPlan::Tier2 => "tier2"@,
        SubPlan::Tier3 => "tier3"@,
        SubPlan::Unknown => "Unknown"@,
    }
}

/// The log label of a gift kind.
pub fn sub_gift_to_string(kind: GiftKind) -> (r: &'static str)
    ensures
        r@ == gift_label(kind),
{
    match kind {
        GiftKind::SubGift => "sub gift",
        GiftKind::AnonSubGift => "anonymous sub gift",
        GiftKind::Unknown => "unknown",
    }
}

/// The log label of a subscription tier.
pub fn sub_plan_to_string(plan: SubPlan) -> (r: &'static str)
    ensures
        r@ == plan_label(plan),
{
    match plan {
        SubPlan::Prime => "prime",
        SubPlan::Tier1 => "tier1",
        SubPlan::Tier2 => "tier2",
        SubPlan::Tier3 => "tier3",
        SubPlan::Unknown => "Unknown",
    }
}

/// `s` with each two-character escape `\s` replaced by a space, read left to right.
pub open spec fn unescape_spaces(s: Seq<char>) -> Seq<char>
    decreases s.len(),
{
    if s.len() == 0 {
        Seq::empty()
    } else if s.len() >= 2 && s[0] == '\\' && s[1] == 's' {
        seq![' '] + unescape_spaces(s.skip(2))
    } else {
        seq![s[0]] + unescape_spaces(s.skip(1))
    }
}

/// The readable form of a plan label: escaped spaces become spaces, a missing label
/// becomes `unknown`.
pub open spec fn plan_name_text(label: Option<Seq<char>>) -> Seq<char> {
    match label {
        Some(s) => unescape_spaces(s),
        None => "unknown"@,
    }
}

/// Replaces each `\s` in `s` by a space.
pub fn unescape_plan_label(s: &str) -> (r: String)
    ensures
        r@ == unescape_spaces(s@),
{
    let n = s.unicode_len();
    let mut out = String::new();
    let mut i: usize = 0;
    assert(s@.skip(0) =~= s@);
    while i < n
        invariant
            n == s@.len(),
            i <= n,
            out@ + unescape_spaces(s@.skip(i as int)) == unescape_spaces(s@),
        decreases n - i,
    {
        let ghost rest = s@.skip(i as int);
        let c = s.get_char(i);
        if c == '\\' && i + 1 < n && s.get_char(i + 1) == 's' {
            assert(rest.skip(2) =~= s@.skip(i + 2));
            assert(out@ + " "@ + unescape_spaces(rest.skip(2)) =~= out@ + (seq![' ']
                + unescape_spaces(rest.skip(2)))) by {
                reveal_strlit(" ");
            }
            out.append(" ");
            i = i + 2;
        } else {
            let piece = s.substring_char(i, i + 1);
            assert(piece@ =~= seq![rest[0]]);
            assert(rest.skip(1) =~= s@.skip(i + 1));
            assert(out@ + piece@ + unescape_spaces(rest.skip(1)) =~= out@ + (seq![rest[0]]
                + unescape_spaces(rest.skip(1))));
            out.append(piece);
            i = i + 1;
        }
    }
    assert(s@.skip(n as int) =~= Seq::<char>::empty());
    assert(out@ + Seq::<char>::empty() =~= out@);
    out
}

/// The readable plan label of a notice.
pub fn plan_name(label: Option<&str>) -> (r: String)
    ensures
        r@ == plan_name_text(opt_text(label)),
{
    match label {
        Some(s) => unescape_plan_label(s),
        None => String::from_str("unknown"),
    }
}

/// The fields of one inbound notice that the gift log reads, as delivered.
pub struct NoticeEvent {
    pub channel: String,
    pub kind: Option<String>,
    pub plan: Option<String>,
    pub plan_name: Option<String>,
    pub display_name: Option<String>,
    pub login: Option<String>,
    pub recipient: Option<String>,
}

/// What the log says of an accepted gift.
pub struct GiftReport {
    pub channel: String,
    pub kind: GiftKind,
    pub plan: SubPlan,
    pub sender: String,
    pub plan_name: String,
}

/// A notice is relevant only if it names a recipient, and that recipient is exactly `me`.
pub open spec fn is_relevant(recipient: Option<Seq<char>>, me: Seq<char>) -> bool {
    match recipient {
        Some(r) => r == me,
        None => false,
    }
}

/// Who sent a gift: the display name, else the login, else `anonymous`.
pub open spec fn sender_text(display_name: Option<Seq<char>>, login: Option<Seq<char>>) -> Seq<
    char,
> {
    match display_name {
        Some(d) => d,
        None => match login {
            Some(l) => l,
            None => "anonymous"@,
        },
    }
}

/// What is reported of a notice addressed to `me`.
pub open spec fn report_matches(n: NoticeEvent, r: GiftReport) -> bool {
    &&& r.channel@ == n.channel@
    &&& r.kind == gift_kind_of(opt_string_text(n.kind))
    &&& r.plan == sub_plan_of(opt_string_text(n.plan))
    &&& r.sender@ == sender_text(
        opt_string_text(n.display_name),
        opt_string_text(n.login),
    )
    &&& r.plan_name@ == plan_name_text(opt_string_text(n.plan_name))
}

fn as_opt_str(s: &Option<String>) -> (r: Option<&str>)
    ensures
        opt_text(r) == opt_string_text(*s),
{
    match s {
        Some(t) => Some(t.as_str()),
        None => None,
    }
}

/// The report of a notice if it is addressed to `me`; nothing for any other notice.
pub fn gift_report(notice: &NoticeEvent, me: &str) -> (r: Option<GiftReport>)
    ensures
        r.is_some() == is_relevant(opt_string_text(notice.recipient), me@),
        r matches Some(rep) ==> report_matches(*notice, rep),
{
    let relevant = match &notice.recipient {
        Some(who) => same_text(who.as_str(), me),
        None => false,
    };
    if !relevant {
        return None;
    }
    let sender = match &notice.display_name {
        Some(d) => d.clone(),
        None => match &notice.login {
            Some(l) => l.clone(),
            None => String::from_str("anonymous"),
        },
    };
    Some(
        GiftReport {
            channel: notice.channel.clone(),
            kind: classify_gift_kind(as_opt_str(&notice.kind)),
            plan: classify_plan(as_opt_str(&notice.plan)),
            sender,
            plan_name: plan_name(as_opt_str(&notice.plan_name)),
        },
    )
}

} // verus!
