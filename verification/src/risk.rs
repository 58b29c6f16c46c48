//! Server-side risk scoring of a content preview: a pure function from the
//! preview text to a numeric risk in `[0, 100]`, a coarse verdict
//! (`ALLOW` / `REVIEW` / `WARN`), and a human-readable reason.

use vstd::prelude::*;
use vstd::string::*;
use crate::strutil::{
    chars_vec, contains_at, contains_seq, contains_str, dec_seq, lemma_contains_concat_left,
    lemma_contains_concat_right, lemma_contains_self, lower_of, lowercase, push_decimal,
};

verus! {

/// Number of entries in the sensitive-pattern catalogue.
pub const MARKER_COUNT: usize = 26;

/// The catalogue of sensitive-pattern markers, in the order they are checked:
/// credential keywords, private-key headers, vendor token prefixes, and
/// database connection-string schemes.
pub open spec fn marker_spec(i: int) -> Seq<char> {
    if i == 0 {
        "api_key"@
    } else if i == 1 {
        "apikey"@
    } else if i == 2 {
        "api-key"@
    } else if i == 3 {
        "secret"@
    } else if i == 4 {
        "password"@
    } else if i == 5 {
        "passwd"@
    } else if i == 6 {
        "pwd"@
    } else if i == 7 {
        "-----begin"@
    } else if i == 8 {
        "private key"@
    } else if i == 9 {
        "sk-"@
    } else if i == 10 {
        "token="@
    } else if i == 11 {
        "bearer"@
    } else if i == 12 {
        "akia"@
    } else if i == 13 {
        "ghp_"@
    } else if i == 14 {
        "gho_"@
    } else if i == 15 {
        "ghu_"@
    } else if i == 16 {
        "ghs_"@
    } else if i == 17 {
        "ghr_"@
    } else if i == 18 {
        "xoxb-"@
    } else if i == 19 {
        "xoxp-"@
    } else if i == 20 {
        "xoxr-"@
    } else if i == 21 {
        "xoxs-"@
    } else if i == 22 {
        "mongodb://"@
    } else if i == 23 {
        "postgres://"@
    } else if i == 24 {
        "mysql://"@
    } else {
        "redis://"@
    }
}

fn marker_at(i: usize) -> (r: &'static str)
    requires
        i < MARKER_COUNT,
    ensures
        r@ == marker_spec(i as int),
{
    match i {
        0 => "api_key",
        1 => "apikey",
        2 => "api-key",
        3 => "secret",
        4 => "password",
        5 => "passwd",
        6 => "pwd",
        7 => "-----begin",
        8 => "private key",
        9 => "sk-",
        10 => "token=",
        11 => "bearer",
        12 => "akia",
        13 => "ghp_",
        14 => "gho_",
        15 => "ghu_",
        16 => "ghs_",
        17 => "ghr_",
        18 => "xoxb-",
        19 => "xoxp-",
        20 => "xoxr-",
        21 => "xoxs-",
        22 => "mongodb://",
        23 => "postgres://",
        24 => "mysql://",
        _ => "redis://",
    }
}

/// The markers among positions `lo ..< hi` of the catalogue that occur in
/// `lower`, in catalogue order.
pub open spec fn found_between(lower: Seq<char>, lo: int, hi: int) -> Seq<Seq<char>>
    decreases hi - lo,
{
    if lo >= hi {
        Seq::empty()
    } else {
        (if contains_seq(lower, marker_spec(lo)) {
            seq![marker_spec(lo)]
        } else {
            Seq::empty()
        }) + found_between(lower, lo + 1, hi)
    }
}

/// All catalogue markers that occur in `lower`, in catalogue order.
pub open spec fn found_markers(lower: Seq<char>) -> Seq<Seq<char>> {
    found_between(lower, 0, MARKER_COUNT as int)
}

proof fn lemma_found_snoc(lower: Seq<char>, lo: int, hi: int)
    requires
        0 <= lo <= hi,
    ensures
        found_between(lower, lo, hi + 1) == found_between(lower, lo, hi) + (if contains_seq(
            lower,
            marker_spec(hi),
        ) {
            seq![marker_spec(hi)]
        } else {
            Seq::<Seq<char>>::empty()
        }),
    decreases hi - lo,
{
    let tail = if contains_seq(lower, marker_spec(hi)) {
        seq![marker_spec(hi)]
    } else {
        Seq::<Seq<char>>::empty()
    };
    if lo == hi {
        assert(found_between(lower, lo, hi) =~= Seq::<Seq<char>>::empty());
        assert(found_between(lower, hi + 1, hi + 1) =~= Seq::<Seq<char>>::empty());
        assert(found_between(lower, lo, hi + 1) =~= found_between(lower, lo, hi) + tail);
    } else {
        lemma_found_snoc(lower, lo + 1, hi);
        let head = if contains_seq(lower, marker_spec(lo)) {
            seq![marker_spec(lo)]
        } else {
            Seq::<Seq<char>>::empty()
        };
        assert(found_between(lower, lo, hi + 1) == head + (found_between(lower, lo + 1, hi)
            + tail));
        assert(head + (found_between(lower, lo + 1, hi) + tail) =~= (head + found_between(
            lower,
            lo + 1,
            hi,
        )) + tail);
    }
}

/// `parts[0] sep parts[1] sep ... sep parts[k-1]`.
pub open spec fn join_upto(parts: Seq<Seq<char>>, sep: Seq<char>, k: int) -> Seq<char>
    decreases k,
{
    if k <= 0 {
        Seq::empty()
    } else if k == 1 {
        parts[0]
    } else {
        join_upto(parts, sep, k - 1) + sep + parts[k - 1]
    }
}

/// All of `parts` joined by `sep`.
pub open spec fn join_all(parts: Seq<Seq<char>>, sep: Seq<char>) -> Seq<char> {
    join_upto(parts, sep, parts.len() as int)
}

/// Each joined part occurs in the join as a contiguous run.
pub proof fn lemma_join_contains(parts: Seq<Seq<char>>, sep: Seq<char>, i: int, k: int)
    requires
        0 <= i < k <= parts.len(),
    ensures
        contains_seq(join_upto(parts, sep, k), parts[i]),
    decreases k,
{
    if k == 1 {
        lemma_contains_self(parts[0]);
    } else if i == k - 1 {
        lemma_contains_self(parts[i]);
        lemma_contains_concat_right(join_upto(parts, sep, k - 1) + sep, parts[k - 1], parts[i]);
    } else {
        lemma_join_contains(parts, sep, i, k - 1);
        lemma_contains_concat_left(join_upto(parts, sep, k - 1), sep, parts[i]);
        lemma_contains_concat_left(join_upto(parts, sep, k - 1) + sep, parts[k - 1], parts[i]);
    }
}

/// Baseline risk, plus a fixed penalty when any sensitive marker occurs, plus
/// the length-bracket penalty, before clamping.
pub open spec fn risk_raw(lower: Seq<char>, n: int) -> int {
    (10 as int) + (if found_markers(lower).len() > 0 {
        75 as int
    } else {
        0 as int
    }) + (if n > 5000 {
        25 as int
    } else if n > 2500 {
        15 as int
    } else {
        0 as int
    })
}

/// The risk score: `risk_raw` clamped to the closed range `[0, 100]`.
pub open spec fn risk_spec(lower: Seq<char>, n: int) -> int {
    if risk_raw(lower, n) > 100 {
        100
    } else {
        risk_raw(lower, n)
    }
}

/// The coarse verdict for a risk score.
pub open spec fn verdict_seq(risk: int) -> Seq<char> {
    if risk >= 85 {
        "WARN"@
    } else if risk >= 50 {
        "REVIEW"@
    } else {
        "ALLOW"@
    }
}

/// The sensitive-pattern reason: every distinct marker matched, in catalogue
/// order, joined with `", "`.
pub open spec fn secrets_part(lower: Seq<char>) -> Seq<char> {
    "Sensitive patterns: "@ + join_all(found_markers(lower), ", "@)
}

/// The length-bracket reason, naming the exact character count.
pub open spec fn length_part(n: int) -> Seq<char> {
    if n > 5000 {
        "Very large message ("@ + dec_seq(n) + " chars)"@
    } else {
        "Large message ("@ + dec_seq(n) + " chars)"@
    }
}

/// The full reason string: all fired reasons joined with `"; "`, sensitive
/// patterns first, then length; a fixed sentinel when none fired.
pub open spec fn reason_spec(lower: Seq<char>, n: int) -> Seq<char> {
    let has_secrets = found_markers(lower).len() > 0;
    let has_length = n > 2500;
    if has_secrets && has_length {
        secrets_part(lower) + "; "@ + length_part(n)
    } else if has_secrets {
        secrets_part(lower)
    } else if has_length {
        length_part(n)
    } else {
        "No issues detected"@
    }
}

/// Score a content preview. Returns the risk in `[0, 100]`, the verdict
/// string, and the reason string. Pure: depends on the text alone.
pub fn policy_preflight(text: &str) -> (r: (u16, String, String))
    ensures
        r.0 as int == risk_spec(lower_of(text@), text@.len() as int),
        10 <= r.0 <= 100,
        r.1@ == verdict_seq(r.0 as int),
        r.2@ == reason_spec(lower_of(text@), text@.len() as int),
{
    let ghost lower = lower_of(text@);
    let lower_string = lowercase(text);
    let lc = chars_vec(lower_string.as_str());
    let n: usize = text.unicode_len();
    let ghost gn = text@.len() as int;

    let mut found: Vec<&'static str> = Vec::new();
    let mut i: usize = 0;
    while i < MARKER_COUNT
        invariant
            i <= MARKER_COUNT,
            lc@ == lower,
            found@.len() == found_between(lower, 0, i as int).len(),
            forall|j: int|
                0 <= j < found@.len() ==> (#[trigger] found@[j])@ == found_between(
                    lower,
                    0,
                    i as int,
                )[j],
        decreases MARKER_COUNT - i,
    {
        let m = marker_at(i);
        proof {
            lemma_found_snoc(lower, 0, i as int);
        }
        if contains_str(&lc, m) {
            found.push(m);
        }
        i = i + 1;
    }
    let ghost parts = found_markers(lower);
    proof {
        assert(found@.len() == parts.len());
    }

    let has_secrets = found.len() > 0;
    let mut risk: u16 = 10;
    if has_secrets {
        risk = risk + 75;
    }
    if n > 5000 {
        risk = risk + 25;
    } else if n > 2500 {
        risk = risk + 15;
    }
    if risk > 100 {
        risk = 100;
    }
    proof {
        assert(risk as int == risk_spec(lower, gn));
    }

    let verdict: String = if risk >= 85 {
        String::from_str("WARN")
    } else if risk >= 50 {
        String::from_str("REVIEW")
    } else {
        String::from_str("ALLOW")
    };

    let mut reason: String = String::new();
    if has_secrets {
        reason.append("Sensitive patterns: ");
        proof {
            assert(reason@ =~= "Sensitive patterns: "@ + join_upto(parts, ", "@, 0));
        }
        let mut k: usize = 0;
        while k < found.len()
            invariant
                k <= found@.len(),
                found@.len() == parts.len(),
                forall|j: int| 0 <= j < found@.len() ==> (#[trigger] found@[j])@ == parts[j],
                reason@ == "Sensitive patterns: "@ + join_upto(parts, ", "@, k as int),
            decreases found@.len() - k,
        {
            if k > 0 {
                reason.append(", ");
            }
            reason.append(found[k]);
            proof {
                assert(reason@ =~= "Sensitive patterns: "@ + join_upto(parts, ", "@, k + 1));
            }
            k = k + 1;
        }
        proof {
            assert(reason@ == secrets_part(lower));
        }
    }
    if n > 5000 {
        if has_secrets {
            reason.append("; ");
        }
        reason.append("Very large message (");
        push_decimal(&mut reason, n);
        reason.append(" chars)");
    } else if n > 2500 {
        if has_secrets {
            reason.append("; ");
        }
        reason.append("Large message (");
        push_decimal(&mut reason, n);
        reason.append(" chars)");
    } else {
        if !has_secrets {
            reason.append("No issues detected");
        }
    }
    proof {
        assert(reason@ =~= reason_spec(lower, gn));
    }

    (risk, verdict, reason)
}

/// The verdict names exactly the risk bracket: `WARN` iff the risk is at
/// least 85, `REVIEW` iff it lies in `[50, 85)`, and `ALLOW` otherwise.
pub proof fn lemma_verdict_thresholds(risk: int)
    ensures
        (verdict_seq(risk) == "WARN"@) <==> (risk >= 85),
        (verdict_seq(risk) == "REVIEW"@) <==> (50 <= risk < 85),
        (verdict_seq(risk) == "ALLOW"@) <==> (risk < 50),
{
    reveal_strlit("WARN");
    reveal_strlit("REVIEW");
    reveal_strlit("ALLOW");
    assert("WARN"@.len() == 4);
    assert("REVIEW"@.len() == 6);
    assert("ALLOW"@.len() == 5);
}

proof fn lemma_found_member(lower: Seq<char>, lo: int, hi: int, i: int)
    requires
        lo <= i < hi,
        contains_seq(lower, marker_spec(i)),
    ensures
        exists|j: int|
            0 <= j < found_between(lower, lo, hi).len() && found_between(lower, lo, hi)[j]
                == marker_spec(i),
    decreases hi - lo,
{
    let head = if contains_seq(lower, marker_spec(lo)) {
        seq![marker_spec(lo)]
    } else {
        Seq::<Seq<char>>::empty()
    };
    let tail = found_between(lower, lo + 1, hi);
    assert(found_between(lower, lo, hi) == head + tail);
    if i == lo {
        assert((head + tail)[0] == marker_spec(i));
    } else {
        lemma_found_member(lower, lo + 1, hi, i);
        let j = choose|j: int| 0 <= j < tail.len() && tail[j] == marker_spec(i);
        assert((head + tail)[head.len() + j] == marker_spec(i));
    }
}

/// A preview whose lowercase form contains `"password"` earns the
/// sensitive-pattern penalty, so the risk is at least 85, and the reason
/// string contains `"password"`.
pub proof fn lemma_password_scores_warn(lower: Seq<char>, n: int)
    requires
        contains_seq(lower, "password"@),
    ensures
        risk_spec(lower, n) >= 85,
        contains_seq(reason_spec(lower, n), "password"@),
{
    assert(marker_spec(4) == "password"@);
    lemma_found_member(lower, 0, MARKER_COUNT as int, 4);
    let parts = found_markers(lower);
    let j = choose|j: int| 0 <= j < parts.len() && parts[j] == marker_spec(4);
    assert(parts.len() > 0);
    lemma_join_contains(parts, ", "@, j, parts.len() as int);
    lemma_contains_concat_right("Sensitive patterns: "@, join_all(parts, ", "@), "password"@);
    assert(contains_seq(secrets_part(lower), "password"@));
    if n > 2500 {
        lemma_contains_concat_left(secrets_part(lower), "; "@, "password"@);
        lemma_contains_concat_left(secrets_part(lower) + "; "@, length_part(n), "password"@);
    }
}

/// A preview over the high length threshold with no sensitive marker scores
/// exactly baseline plus the large-message penalty, and the reason names the
/// exact character count.
pub proof fn lemma_large_clean_preview(lower: Seq<char>, n: int)
    requires
        found_markers(lower).len() == 0,
        n > 5000,
    ensures
        risk_spec(lower, n) == 35,
        reason_spec(lower, n) == "Very large message ("@ + dec_seq(n) + " chars)"@,
{
}

proof fn lemma_empty_no_found(lower: Seq<char>, lo: int)
    requires
        lower.len() == 0,
        0 <= lo,
    ensures
        found_between(lower, lo, MARKER_COUNT as int).len() == 0,
    decreases MARKER_COUNT as int - lo,
{
    if lo >= MARKER_COUNT as int {
    } else {
        reveal_strlit("api_key");
        reveal_strlit("apikey");
        reveal_strlit("api-key");
        reveal_strlit("secret");
        reveal_strlit("password");
        reveal_strlit("passwd");
        reveal_strlit("pwd");
        reveal_strlit("-----begin");
        reveal_strlit("private key");
        reveal_strlit("sk-");
        reveal_strlit("token=");
        reveal_strlit("bearer");
        reveal_strlit("akia");
        reveal_strlit("ghp_");
        reveal_strlit("gho_");
        reveal_strlit("ghu_");
        reveal_strlit("ghs_");
        reveal_strlit("ghr_");
        reveal_strlit("xoxb-");
        reveal_strlit("xoxp-");
        reveal_strlit("xoxr-");
        reveal_strlit("xoxs-");
        reveal_strlit("mongodb://");
        reveal_strlit("postgres://");
        reveal_strlit("mysql://");
        reveal_strlit("redis://");
        assert(marker_spec(lo).len() > 0);
        assert(forall|k: int| !contains_at(lower, marker_spec(lo), k));
        lemma_empty_no_found(lower, lo + 1);
    }
}

/// An empty or short clean preview scores the baseline with the sentinel
/// reason and an `ALLOW` verdict.
pub proof fn lemma_empty_preview(lower: Seq<char>, n: int)
    requires
        lower.len() == 0,
        0 <= n <= 2500,
    ensures
        risk_spec(lower, n) == 10,
        reason_spec(lower, n) == "No issues detected"@,
        verdict_seq(risk_spec(lower, n)) == "ALLOW"@,
{
    lemma_empty_no_found(lower, 0);
}

} // verus!
