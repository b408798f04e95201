//! What the immobilizer check says of the bytes that an ECU answered.

use vstd::prelude::*;

use crate::immo::{
    all_rules, flash_diff, snapshot_state, spec_unquantize, state_did, status_bits, payload,
    worst_of, Finding, ImmoRule, ImmoState, Severity,
};

verus! {

/// An identifier was answered with at least so many bytes.
pub open spec fn usable(s: Map<u16, Seq<u8>>, did: u16, len: int) -> bool {
    s.contains_key(did) && s[did].len() >= len
}

/// A bit of a byte, by its place value.
pub open spec fn bit(b: u8, place: int) -> bool {
    (b as int / place) % 2 == 1
}

/// Some finding comes from the rule and has the severity.
pub open spec fn tells(findings: Seq<Finding>, rule: ImmoRule, severity: Severity) -> bool {
    exists|i: int|
        0 <= i < findings.len() && (#[trigger] findings[i]).rule == rule && findings[i].severity
            == severity
}

proof fn lemma_bits(b: u8)
    ensures
        (b & 0x80 != 0) == bit(b, 128),
        (b & 0x40 != 0) == bit(b, 64),
        (b & 0x20 != 0) == bit(b, 32),
        (b & 0x10 != 0) == bit(b, 16),
        (b & 0x08 != 0) == bit(b, 8),
        (b & 0x04 != 0) == bit(b, 4),
{
    assert((b & 0x80 != 0) == ((b / 128) % 2 == 1) && (b & 0x40 != 0) == ((b / 64) % 2 == 1) && (b
        & 0x20 != 0) == ((b / 32) % 2 == 1) && (b & 0x10 != 0) == ((b / 16) % 2 == 1) && (b & 0x08
        != 0) == ((b / 8) % 2 == 1) && (b & 0x04 != 0) == ((b / 4) % 2 == 1)) by (bit_vector);
}

proof fn lemma_tells_both(a: Seq<Finding>, b: Seq<Finding>, rule: ImmoRule, severity: Severity)
    ensures
        tells(a + b, rule, severity) == (tells(a, rule, severity) || tells(b, rule, severity)),
{
    let both = a + b;
    if tells(a, rule, severity) {
        let i = choose|i: int|
            0 <= i < a.len() && (#[trigger] a[i]).rule == rule && a[i].severity == severity;
        assert(both[i] == a[i]);
    }
    if tells(b, rule, severity) {
        let i = choose|i: int|
            0 <= i < b.len() && (#[trigger] b[i]).rule == rule && b[i].severity == severity;
        assert(both[a.len() + i] == b[i]);
    }
    if tells(both, rule, severity) {
        let i = choose|i: int|
            0 <= i < both.len() && (#[trigger] both[i]).rule == rule && both[i].severity
                == severity;
        if i < a.len() {
            assert(a[i] == both[i]);
        } else {
            assert(b[i - a.len()] == both[i]);
        }
    }
}

/// The first finding comes from the rule and has the severity.
spec fn first_tells(findings: Seq<Finding>, rule: ImmoRule, severity: Severity) -> bool {
    findings.len() > 0 && findings[0].rule == rule && findings[0].severity == severity
}

proof fn lemma_tells_one(findings: Seq<Finding>, rule: ImmoRule, severity: Severity)
    requires
        findings.len() <= 1,
    ensures
        tells(findings, rule, severity) == first_tells(findings, rule, severity),
{
}

/// What a report tells is what one of its rules tells.
proof fn lemma_told(s: Map<u16, Seq<u8>>, rule: ImmoRule, severity: Severity)
    ensures
        ({
            let state = payload(s, 0x2ED, 10);
            let bits = payload(s, 0x2EE, 10);
            let lockout = payload(s, 0x2EF, 6);
            let extended = payload(s, 0x2FF, 19);
            let timers = crate::immo::lockout_rule(lockout);
            tells(all_rules(s), rule, severity) == (first_tells(
                crate::immo::unavailable_rule(crate::immo::missing(s)),
                rule,
                severity,
            ) || first_tells(crate::immo::malformed_rule(s), rule, severity) || first_tells(
                crate::immo::tuning_rule(state, extended),
                rule,
                severity,
            ) || first_tells(crate::immo::state_rule(state, extended), rule, severity)
                || first_tells(
                crate::immo::hidden_rule(state, snapshot_state(state, bits, extended)),
                rule,
                severity,
            ) || first_tells(crate::immo::lock_rule(bits), rule, severity) || first_tells(
                timers,
                rule,
                severity,
            ) || first_tells(crate::immo::error_rule(extended), rule, severity) || first_tells(
                crate::immo::memory_rule(bits),
                rule,
                severity,
            ))
        }),
{
    let state = payload(s, 0x2ED, 10);
    let bits = payload(s, 0x2EE, 10);
    let lockout = payload(s, 0x2EF, 6);
    let extended = payload(s, 0x2FF, 19);
    let a = crate::immo::unavailable_rule(crate::immo::missing(s));
    let b = crate::immo::malformed_rule(s);
    let c = crate::immo::tuning_rule(state, extended);
    let d = crate::immo::state_rule(state, extended);
    let e = crate::immo::hidden_rule(state, snapshot_state(state, bits, extended));
    let f = crate::immo::lock_rule(bits);
    let g = crate::immo::lockout_rule(lockout);
    let h = crate::immo::error_rule(extended);
    let i = crate::immo::memory_rule(bits);
    lemma_tells_both(a, b, rule, severity);
    lemma_tells_both(a + b, c, rule, severity);
    lemma_tells_both(a + b + c, d, rule, severity);
    lemma_tells_both(a + b + c + d, e, rule, severity);
    lemma_tells_both(a + b + c + d + e, f, rule, severity);
    lemma_tells_both(a + b + c + d + e + f, g, rule, severity);
    lemma_tells_both(a + b + c + d + e + f + g, h, rule, severity);
    lemma_tells_both(a + b + c + d + e + f + g + h, i, rule, severity);
    lemma_tells_one(a, rule, severity);
    lemma_tells_one(b, rule, severity);
    lemma_tells_one(c, rule, severity);
    lemma_tells_one(d, rule, severity);
    lemma_tells_one(e, rule, severity);
    lemma_tells_one(f, rule, severity);
    lemma_tells_one(h, rule, severity);
    lemma_tells_one(i, rule, severity);
    assert(forall|k: int|
        0 <= k < g.len() ==> (#[trigger] g[k]).rule == g[0].rule && g[k].severity == g[0].severity);
    if tells(g, rule, severity) {
        let k = choose|k: int|
            0 <= k < g.len() && (#[trigger] g[k]).rule == rule && g[k].severity == severity;
        assert(g[k].rule == g[0].rule);
    }
    if g.len() > 0 {
        assert(g[0].rule == g[0].rule);
    }
}

/// The bytes of the status identifiers: which byte and which bit each field is.
pub proof fn law_where_the_fields_lie(p: Seq<u8>)
    requires
        p.len() >= 10,
    ensures
        state_did(p).st_stat_fct == p[0],
        state_did(p).ct_dat_bas_fazit == p[1],
        state_did(p).idx_lab == p[2],
        state_did(p).b_lim_mod_ena == bit(p[8], 8),
        status_bits(p).ignition_on == bit(p[0], 4),
        status_bits(p).st_not_3 == bit(p[1], 128),
        status_bits(p).st_is_2 == bit(p[1], 64),
        status_bits(p).b_mst_resp_rx == bit(p[1], 32),
        status_bits(p).b_mst_cks_vld == bit(p[1], 16),
        status_bits(p).b_mst_key_vld == bit(p[1], 8),
        status_bits(p).b_inh_acs_mem == !bit(p[1], 4),
{
    lemma_bits(p[0]);
    lemma_bits(p[1]);
    lemma_bits(p[8]);
}

/// The tuning index is one of the five entries of the allow-list, which are not all zero.
pub open spec fn may_run(e: Seq<u8>) -> bool {
    &&& exists|i: int| 10 <= i < 15 && #[trigger] e[i] != 0
    &&& exists|i: int| 10 <= i < 15 && #[trigger] e[i] == e[9]
}

proof fn lemma_may_run(e: Seq<u8>)
    requires
        e.len() >= 19,
    ensures
        crate::immo::tuning_of(e[9], e.subrange(10, 15)) is Okay == may_run(e),
{
    let listed = e.subrange(10, 15);
    if exists|i: int| 10 <= i < 15 && #[trigger] e[i] != 0 {
        let i = choose|i: int| 10 <= i < 15 && #[trigger] e[i] != 0;
        assert(listed[i - 10] == e[i]);
    }
    if exists|i: int| 10 <= i < 15 && #[trigger] e[i] == e[9] {
        let i = choose|i: int| 10 <= i < 15 && #[trigger] e[i] == e[9];
        assert(listed[i - 10] == e[i]);
    }
    if !(forall|i: int| 0 <= i < listed.len() ==> listed[i] == 0) {
        let i = choose|i: int| 0 <= i < listed.len() && listed[i] != 0;
        assert(e[i + 10] == listed[i]);
    }
    if listed.contains(e[9]) {
        let i = choose|i: int| 0 <= i < listed.len() && listed[i] == e[9];
        assert(e[i + 10] == listed[i]);
    }
}

/// The tuning interlock is a risk exactly where the index cannot pass, in every state in
/// which the ECU has not zeroed the index.
pub proof fn law_when_the_interlock_warns(s: Map<u16, Seq<u8>>)
    ensures
        tells(all_rules(s), ImmoRule::TuningInterlock, Severity::Warn) <==> usable(s, 0x2FF, 19)
            && !may_run(s[0x2FF]) && !(usable(s, 0x2ED, 10) && (s[0x2ED][0] == 1 || s[0x2ED][0]
            == 10 || s[0x2ED][0] == 0x58 || s[0x2ED][0] == 0x63)),
{
    let (rule, severity) = (ImmoRule::TuningInterlock, Severity::Warn);
    lemma_told(s, rule, severity);
    if usable(s, 0x2FF, 19) {
        lemma_may_run(s[0x2FF]);
    }
}

/// A dead state is a risk: 10, 0x58 or 0x63. So is one that was never adapted: 1.
pub proof fn law_when_a_state_warns(s: Map<u16, Seq<u8>>)
    ensures
        tells(all_rules(s), ImmoRule::DeadState, Severity::Warn) <==> usable(s, 0x2ED, 10) && (
        s[0x2ED][0] == 10 || s[0x2ED][0] == 0x58 || s[0x2ED][0] == 0x63),
        tells(all_rules(s), ImmoRule::NotAdapted, Severity::Warn) <==> usable(s, 0x2ED, 10)
            && s[0x2ED][0] == 1,
{
    lemma_told(s, ImmoRule::DeadState, Severity::Warn);
    lemma_told(s, ImmoRule::NotAdapted, Severity::Warn);
}

/// A reported 2 stands for the adapted state only where the status bits say so. It is a
/// risk where they say otherwise, unless it cannot be told what it stands for.
pub proof fn law_what_a_reported_two_means(s: Map<u16, Seq<u8>>)
    ensures
        ({
            let two = usable(s, 0x2ED, 10) && s[0x2ED][0] == 2;
            let bits = usable(s, 0x2EE, 10);
            let is_2 = bit(s[0x2EE][1], 64);
            let not_3 = bit(s[0x2EE][1], 128);
            let told = !not_3 || usable(s, 0x2FF, 19);
            let rule = ImmoRule::HiddenState;
            &&& tells(all_rules(s), rule, Severity::Okay) <==> two && bits && is_2
            &&& tells(all_rules(s), rule, Severity::Warn) <==> two && bits && !is_2 && told
            &&& tells(all_rules(s), rule, Severity::Unknown) <==> two && (!bits || (!is_2
                && !told))
        }),
{
    lemma_told(s, ImmoRule::HiddenState, Severity::Okay);
    lemma_told(s, ImmoRule::HiddenState, Severity::Warn);
    lemma_told(s, ImmoRule::HiddenState, Severity::Unknown);
    lemma_bits(s[0x2EE][1]);
}

/// The state of a snapshot: what was reported, except that a 2 may hide three others.
pub proof fn law_the_state_of_a_snapshot(state: Seq<u8>, bits: Seq<u8>, extended: Seq<u8>)
    requires
        state.len() >= 10,
        bits.len() >= 10,
        extended.len() >= 19,
    ensures
        ({
            let r = snapshot_state(Some(state), Some(bits), Some(extended));
            &&& state[0] == 1 ==> r == Some(ImmoState::NotAdapted)
            &&& state[0] == 10 ==> r == Some(ImmoState::NoConfMod)
            &&& state[0] == 0x58 ==> r == Some(ImmoState::HardwareSampleLock)
            &&& state[0] == 0x63 ==> r == Some(ImmoState::LockedC)
            &&& state[0] == 2 && bit(bits[1], 64) ==> r == Some(ImmoState::Adapted)
            &&& state[0] == 2 && !bit(bits[1], 64) && !bit(bits[1], 128) ==> r == Some(
                ImmoState::HardwareSampleAdapted,
            )
            &&& state[0] == 2 && !bit(bits[1], 64) && bit(bits[1], 128) && may_run(extended) ==> r
                == Some(ImmoState::AdaptationMode)
            &&& state[0] == 2 && !bit(bits[1], 64) && bit(bits[1], 128) && !may_run(extended) ==> r
                == Some(ImmoState::TuningCheckFailed)
            &&& state[0] == 0 || 2 < state[0] < 10 || 10 < state[0] < 0x58 || 0x58 < state[0] < 0x63
                || state[0] > 0x63 ==> r == Some(ImmoState::Other(state[0]))
        }),
{
    lemma_bits(bits[1]);
    lemma_may_run(extended);
}

/// The cluster is verified where checksum and PIN are accepted. A rejection is a risk only
/// with the ignition on and after a reply; without either nothing is known.
pub proof fn law_when_the_lock_warns(s: Map<u16, Seq<u8>>)
    ensures
        ({
            let bits = usable(s, 0x2EE, 10);
            let verified = bit(s[0x2EE][1], 16) && bit(s[0x2EE][1], 8);
            let asked = bit(s[0x2EE][0], 4) && bit(s[0x2EE][1], 32);
            let rule = ImmoRule::LockState;
            &&& tells(all_rules(s), rule, Severity::Okay) <==> bits && verified
            &&& tells(all_rules(s), rule, Severity::Warn) <==> bits && !verified && asked
            &&& tells(all_rules(s), rule, Severity::Unknown) <==> bits && !verified && !asked
        }),
{
    lemma_told(s, ImmoRule::LockState, Severity::Okay);
    lemma_told(s, ImmoRule::LockState, Severity::Warn);
    lemma_told(s, ImmoRule::LockState, Severity::Unknown);
    lemma_bits(s[0x2EE][0]);
    lemma_bits(s[0x2EE][1]);
}

/// A lockout that counts down is a risk; an error code and an inhibited memory access are
/// told, and are none.
pub proof fn law_timers_errors_and_memory_access(s: Map<u16, Seq<u8>>)
    ensures
        tells(all_rules(s), ImmoRule::Lockout, Severity::Warn) <==> usable(s, 0x2EF, 6) && (
        s[0x2EF][0] != 0 || s[0x2EF][1] != 0),
        tells(all_rules(s), ImmoRule::LastError, Severity::Unknown) <==> usable(s, 0x2FF, 19)
            && s[0x2FF][18] != 0,
        tells(all_rules(s), ImmoRule::MemoryAccess, Severity::Okay) <==> usable(s, 0x2EE, 10)
            && !bit(s[0x2EE][1], 4),
{
    lemma_told(s, ImmoRule::Lockout, Severity::Warn);
    lemma_told(s, ImmoRule::LastError, Severity::Unknown);
    lemma_told(s, ImmoRule::MemoryAccess, Severity::Okay);
    lemma_bits(s[0x2EE][1]);
}

/// It is told that a status could not be verified exactly where one of the three required
/// identifiers has no usable answer, or the lockout timers were answered too short.
pub proof fn law_what_is_missing_is_told(s: Map<u16, Seq<u8>>)
    ensures
        tells(all_rules(s), ImmoRule::Unavailable, Severity::Unknown) <==> !usable(s, 0x2ED, 10)
            || !usable(s, 0x2EE, 10) || !usable(s, 0x2FF, 19) || (s.contains_key(0x2EF)
            && s[0x2EF].len() < 6),
{
    lemma_told(s, ImmoRule::Unavailable, Severity::Unknown);
}

/// A report is a warning exactly where something is a risk, and is fine exactly where
/// nothing is a risk and nothing is unknown.
pub proof fn law_the_worst_counts(findings: Seq<Finding>)
    ensures
        worst_of(findings) == Severity::Warn <==> exists|i: int|
            0 <= i < findings.len() && (#[trigger] findings[i]).severity == Severity::Warn,
        worst_of(findings) == Severity::Okay <==> forall|i: int|
            0 <= i < findings.len() ==> (#[trigger] findings[i]).severity == Severity::Okay,
    decreases findings.len(),
{
    if findings.len() > 0 {
        let shorter = findings.drop_last();
        law_the_worst_counts(shorter);
        assert forall|i: int| 0 <= i < shorter.len() implies #[trigger] shorter[i]
            == findings[i] by {}
        let last = findings[findings.len() - 1];
        if worst_of(shorter) == Severity::Warn {
            let i = choose|i: int|
                0 <= i < shorter.len() && (#[trigger] shorter[i]).severity == Severity::Warn;
            assert(findings[i].severity == Severity::Warn);
        }
        if exists|i: int|
            0 <= i < findings.len() && (#[trigger] findings[i]).severity == Severity::Warn {
            let i = choose|i: int|
                0 <= i < findings.len() && (#[trigger] findings[i]).severity == Severity::Warn;
            if i < shorter.len() {
                assert(shorter[i].severity == Severity::Warn);
            }
        }
        if worst_of(findings) == Severity::Okay {
            assert forall|i: int| 0 <= i < findings.len() implies (
            #[trigger] findings[i]).severity == Severity::Okay by {
                if i < shorter.len() {
                    assert(shorter[i].severity == Severity::Okay);
                }
            }
        }
        if forall|i: int|
            0 <= i < findings.len() ==> (#[trigger] findings[i]).severity == Severity::Okay {
            assert forall|i: int| 0 <= i < shorter.len() implies (
            #[trigger] shorter[i]).severity == Severity::Okay by {
                assert(findings[i].severity == Severity::Okay);
            }
            assert(last.severity == Severity::Okay);
        }
    }
}

/// A counter is given back from its byte: ones, then hundreds, then thousands, with 255
/// for one that ran over.
pub proof fn law_how_counters_are_read(k: u8)
    ensures
        k < 100 ==> spec_unquantize(k) == Some(k as u32),
        k < 100 ==> spec_unquantize((100 + k) as u8) == Some((k * 100) as u32),
        k < 55 ==> spec_unquantize((200 + k) as u8) == Some((k * 1000) as u32),
        spec_unquantize(255) is None,
{
}

/// A flash is warned of where it changed the allow-list, lost the tuning index from it,
/// turned the ECU into a sample, brought a dead state, or took the mark of a genuine 2
/// away; and of nothing else.
pub proof fn law_what_a_flash_is_warned_of(
    before: Map<u16, Seq<u8>>,
    after: Map<u16, Seq<u8>>,
)
    requires
        usable(before, 0x2ED, 10),
        usable(after, 0x2ED, 10),
        usable(before, 0x2EE, 10),
        usable(after, 0x2EE, 10),
        usable(before, 0x2FF, 19),
        usable(after, 0x2FF, 19),
    ensures
        ({
            let (b, a) = (before[0x2FF], after[0x2FF]);
            let (sb, sa) = (before[0x2ED][0], after[0x2ED][0]);
            let relisted = exists|i: int| 10 <= i < 15 && #[trigger] b[i] != a[i];
            let lost = (exists|i: int| 10 <= i < 15 && #[trigger] b[i] == b[9]) && !(exists|i: int|
                10 <= i < 15 && #[trigger] a[i] == a[9]);
            let sampled = b[0] == 0x53 && a[0] == 0x41;
            let died = (sa == 10 || sa == 0x58 || sa == 0x63) && !(sb == 10 || sb == 0x58 || sb
                == 0x63);
            let unmarked = sa == 2 && bit(before[0x2EE][1], 64) && !bit(after[0x2EE][1], 64);
            &&& tells(flash_diff(before, after), ImmoRule::PostFlashChange, Severity::Warn)
                <==> relisted || lost || sampled || died || unmarked
            &&& flash_diff(before, after).len() == (if relisted {
                1int
            } else {
                0
            }) + (if lost {
                1int
            } else {
                0
            }) + (if sampled {
                1int
            } else {
                0
            }) + (if died {
                1int
            } else {
                0
            }) + (if unmarked {
                1int
            } else {
                0
            })
        }),
{
    let (b, a) = (before[0x2FF], after[0x2FF]);
    let (listed_b, listed_a) = (b.subrange(10, 15), a.subrange(10, 15));
    lemma_bits(before[0x2EE][1]);
    lemma_bits(after[0x2EE][1]);
    if exists|i: int| 10 <= i < 15 && #[trigger] b[i] != a[i] {
        let i = choose|i: int| 10 <= i < 15 && #[trigger] b[i] != a[i];
        assert(listed_b[i - 10] == b[i] && listed_a[i - 10] == a[i]);
    } else {
        assert forall|i: int| 0 <= i < 5 implies listed_b[i] == listed_a[i] by {
            assert(b[i + 10] == a[i + 10]);
        }
        assert(listed_b =~= listed_a);
    }
    lemma_listed(b);
    lemma_listed(a);
    let diff = flash_diff(before, after);
    if diff.len() > 0 {
        assert(diff[0].rule == ImmoRule::PostFlashChange && diff[0].severity == Severity::Warn);
    }
}

proof fn lemma_listed(e: Seq<u8>)
    requires
        e.len() >= 19,
    ensures
        e.subrange(10, 15).contains(e[9]) == exists|i: int| 10 <= i < 15 && #[trigger] e[i] == e[9],
{
    let listed = e.subrange(10, 15);
    if exists|i: int| 10 <= i < 15 && #[trigger] e[i] == e[9] {
        let i = choose|i: int| 10 <= i < 15 && #[trigger] e[i] == e[9];
        assert(listed[i - 10] == e[i]);
    }
    if listed.contains(e[9]) {
        let i = choose|i: int| 0 <= i < listed.len() && listed[i] == e[9];
        assert(e[i + 10] == listed[i]);
    }
}

} // verus!
