//! What the screens say.

use vstd::prelude::*;

use crate::a2l::reader::values_of;
use crate::immo::Finding;
use crate::module::number_of;
use crate::viewer::panels::{body_of, curves_beside, mark_of, rows_of, CurveValue};
use crate::viewer::state::{Msg, StateValue as ViewerValue};
use crate::wizard::screens::{
    finding_pieces, may_go_back, payload_total, screen, severity_text, Pick, Piece,
};
use crate::wizard::state::{module_of, StateValue};
use crate::wizard::steps::Operation;
use crate::prepare::Prepared;

verus! {

/// An operation can be chosen on a screen.
pub open spec fn offered(v: Seq<Piece>, op: Operation) -> bool {
    exists|i: int|
        0 <= i < v.len() && ((#[trigger] v[i]) matches Piece::Choice(_, Pick::Operation(o), _) && o
            == op)
}

/// A calibration flash and a full flash are always offered. An unlock is offered where the
/// lock was read, did not prove open, and there is a file for it; a relock where the module
/// has a bootloader block.
pub proof fn law_which_operations_are_offered<'a>(s: StateValue<'a>)
    requires
        s.nav.step is Operation,
    ensures
        offered(screen(s), Operation::CalibrationFlash),
        offered(screen(s), Operation::FullFlash),
        offered(screen(s), Operation::Unlock) <==> s.lock.unlock_file is Some && (
        s.lock.unlock matches Some(p) && !(p.state is Unlocked)),
        offered(screen(s), Operation::Relock) <==> (module_of(s.scan) matches Some(fi) && number_of(
            fi.block_names@,
            "CBOOT"@,
        ) is Some),
{
    let v = screen(s);
    let unlocks = s.lock.unlock_file is Some && (s.lock.unlock matches Some(p) && !(
    p.state is Unlocked));
    let relocks = module_of(s.scan) matches Some(fi) && number_of(
        fi.block_names@,
        "CBOOT"@,
    ) is Some;
    let at: int = if unlocks {
        2
    } else {
        0
    };
    assert(v[at] matches Piece::Choice(_, Pick::Operation(o), _) && o
        == Operation::CalibrationFlash);
    assert(v[at + 2] matches Piece::Choice(_, Pick::Operation(o), _) && o == Operation::FullFlash);
    if unlocks {
        assert(v[0] matches Piece::Choice(_, Pick::Operation(o), _) && o == Operation::Unlock);
    }
    if relocks {
        assert(v[at + 4] matches Piece::Choice(_, Pick::Operation(o), _) && o == Operation::Relock);
    }
}

/// There is a way back from every screen but the first, and none once a flash runs or while
/// the bus is waited for.
pub proof fn law_when_there_is_a_way_back<'a>(s: StateValue<'a>)
    ensures
        may_go_back(s.nav) <==> s.nav.busy is None && (s.nav.step is Identify || s.nav.step
            is Unlock || s.nav.step is Operation || s.nav.step is Firmware || s.nav.step
            is Preflight || s.nav.step is Confirm),
{
}

proof fn lemma_findings_shown(findings: Seq<Finding>, i: int)
    requires
        0 <= i < findings.len(),
    ensures
        finding_pieces(findings).contains(
            Piece::Text(
                13,
                "["@ + severity_text(findings[i].severity) + "] "@ + findings[i].message,
            ),
        ),
        finding_pieces(findings).contains(Piece::Hint(findings[i].detail)),
    decreases findings.len(),
{
    let all = finding_pieces(findings);
    let fewer = finding_pieces(findings.drop_last());
    let text = Piece::Text(
        13,
        "["@ + severity_text(findings[i].severity) + "] "@ + findings[i].message,
    );
    let hint = Piece::Hint(findings[i].detail);
    if i == findings.len() - 1 {
        assert(all[fewer.len() as int] == text);
        assert(all[fewer.len() as int + 1] == hint);
    } else {
        assert(findings.drop_last()[i] == findings[i]);
        lemma_findings_shown(findings.drop_last(), i);
        let a = choose|a: int| 0 <= a < fewer.len() && fewer[a] == text;
        assert(all[a] == text);
        let b = choose|b: int| 0 <= b < fewer.len() && fewer[b] == hint;
        assert(all[b] == hint);
    }
}

/// Everything that the immobilizer check found is on the screen of the checks, with what is
/// said about it.
pub proof fn law_every_finding_is_shown<'a>(s: StateValue<'a>, findings: Seq<Finding>, i: int)
    requires
        s.nav.step is Preflight,
        s.nav.busy is None,
        s.checks.findings == Some(findings),
        0 <= i < findings.len(),
    ensures
        screen(s).contains(
            Piece::Text(
                13,
                "["@ + severity_text(findings[i].severity) + "] "@ + findings[i].message,
            ),
        ),
        screen(s).contains(Piece::Hint(findings[i].detail)),
{
    lemma_findings_shown(findings, i);
    let v = screen(s);
    let shown = finding_pieces(findings);
    let text = Piece::Text(
        13,
        "["@ + severity_text(findings[i].severity) + "] "@ + findings[i].message,
    );
    let hint = Piece::Hint(findings[i].detail);
    let before = crate::wizard::screens::note_pieces(s.checks.prep_notes).len() + 1;
    let a = choose|a: int| 0 <= a < shown.len() && shown[a] == text;
    assert(v[before + a] == text);
    let b = choose|b: int| 0 <= b < shown.len() && shown[b] == hint;
    assert(v[before + b] == hint);
}

/// A running flash shows the last two hundred lines of its log, the newest on top.
pub proof fn law_the_newest_lines_are_on_top<'a>(s: StateValue<'a>, i: int)
    requires
        s.nav.step is Flashing,
    ensures
        screen(s)[0] == Piece::Text(15, s.flashing.progress_step),
        screen(s)[2] matches Piece::Log(lines, _) && {
            let all = s.flashing.log_lines;
            &&& lines.len() == (if all.len() <= 200 {
                all.len()
            } else {
                200
            })
            &&& 0 <= i < lines.len() ==> lines[i] == all[all.len() - 1 - i]
        },
{
}

/// The last screen says how the flash ended.
pub proof fn law_the_outcome_is_told<'a>(s: StateValue<'a>)
    requires
        s.nav.step is Done,
    ensures
        s.flashing.finished_ok ==> screen(s)[0] == Piece::Text(
            16,
            "The flash completed successfully."@,
        ),
        !s.flashing.finished_ok ==> screen(s)[0] == Piece::Text(
            16,
            "The flash did not complete."@,
        ),
{
}

/// A relock is warned of before it is written.
pub proof fn law_a_relock_is_warned_of<'a>(s: StateValue<'a>)
    requires
        s.nav.step is Confirm,
        s.job.operation == Some(Operation::Relock),
    ensures
        exists|i: int|
            0 <= i < screen(s).len() && ((#[trigger] screen(s)[i]) matches Piece::Callout(
                title,
                _,
            ) && title == "This will relock the ECU"@),
{
    let v = screen(s);
    let at: int = if s.checks.prepared is Some {
        6
    } else {
        4
    };
    assert(v[at] matches Piece::Callout(title, _) && title == "This will relock the ECU"@);
}

/// The bytes that are sent in all are those of every block.
pub proof fn law_the_payload_is_that_of_all_blocks(a: Seq<Prepared>, b: Prepared)
    ensures
        payload_total(a.push(b)) == payload_total(a) + b.payload.len(),
        payload_total(Seq::empty()) == 0,
{
    assert(a.push(b).drop_last() =~= a);
}

/// What is selected in the browser is read from both firmwares, each by the same
/// description.
pub proof fn law_what_a_selection_reads(s: ViewerValue, i: usize)
    requires
        s.loaded.a2l is Some,
    ensures
        ({
            let t = crate::viewer::state::updated(s, Msg::SelectChar(i)).0.selection;
            let a2l = s.loaded.a2l->0;
            let ch = a2l.characteristics[i as int];
            &&& t.selected == Some(i)
            &&& s.loaded.binary matches Some(data) ==> (match values_of(
                ch,
                a2l,
                data,
                s.loaded.address_map,
                s.selection.cuts,
            ) {
                Ok(v) => t.cached_values == Some(v),
                Err(_) => t.cached_values is None,
            })
            &&& s.loaded.binary2 matches Some(data) ==> (match values_of(
                ch,
                a2l,
                data,
                s.loaded.address_map,
                s.selection.cuts,
            ) {
                Ok(v) => t.cached_values2 == Some(v),
                Err(_) => t.cached_values2 is None,
            })
            &&& s.loaded.binary is None ==> t.cached_values is None
            &&& s.loaded.binary2 is None ==> t.cached_values2 is None
        }),
{
    reveal(crate::viewer::state::reading);
}

/// In a comparison what changed is marked, and what may not have been rescaled is marked in
/// another way; elsewhere nothing is marked.
pub proof fn law_what_is_marked(s: ViewerValue, index: usize)
    ensures
        !s.display.compare_mode ==> mark_of(s, index) is Plain,
        s.display.compare_mode && s.filter.changed_set.len() > 0 ==> {
            let suspect = s.filter.axis_changed_values_same.contains(index);
            let changed = s.filter.changed_set.contains(index);
            &&& mark_of(s, index) is Suspect <==> suspect
            &&& mark_of(s, index) is Changed <==> changed && !suspect
            &&& mark_of(s, index) is Plain <==> !changed && !suspect
        },
{
}

/// There is a line for everything that is listed, in the order of the list.
pub proof fn law_every_listed_thing_has_a_line(s: ViewerValue, i: int)
    requires
        s.loaded.a2l is Some,
        0 <= i < s.listing.filtered.len(),
    ensures
        rows_of(s) matches Some(rows) && {
            let index = s.listing.filtered[i];
            let ch = s.loaded.a2l->0.characteristics[index as int];
            &&& rows.len() == s.listing.filtered.len()
            &&& rows[i].index == index
            &&& rows[i].name == ch.name
            &&& rows[i].selected == (s.selection.selected == Some(index))
            &&& rows[i].mark == mark_of(s, index)
            &&& ch.description.len() > 0 ==> rows[i].description == Some(ch.description)
        },
{
}

/// What stands below the name of what is selected: two firmwares beside each other where
/// both are there and are compared, else the values of the first.
pub proof fn law_what_stands_below(s: ViewerValue, index: usize)
    ensures
        ({
            let two = s.display.compare_mode && s.loaded.binary2 is Some;
            let one = s.loaded.binary is Some;
            &&& body_of(s, index) is Compare <==> two && one
            &&& body_of(s, index) is LoadFirst <==> two && !one
            &&& body_of(s, index) is Load <==> !two && !one
            &&& body_of(s, index) is Values <==> !two && one && s.selection.cached_values is Some
            &&& body_of(s, index) is Unreadable <==> !two && one
                && s.selection.cached_values is None
        }),
{
}

/// Two curves stand row by row where their axes have as many points; where the points are
/// the same, they share the axis.
pub proof fn law_curves_beside_each_other(
    x1: int,
    y1: int,
    x2: int,
    y2: int,
    same: bool,
    axis: Option<Seq<char>>,
)
    requires
        0 <= x1,
        0 <= y1,
        0 <= x2,
        0 <= y2,
    ensures
        curves_beside(x1, y1, x2, y2, same, axis) is Apart <==> x1 != x2,
        x1 == x2 && same ==> (curves_beside(x1, y1, x2, y2, same, axis) matches
            CurveValue::Aligned { rows } && rows <= x1 && rows <= y1 && rows <= y2 && (rows == x1
            || rows == y1 || rows == y2)),
        x1 == x2 && !same ==> (curves_beside(x1, y1, x2, y2, same, axis) matches
            CurveValue::Shifted { rows, .. } && rows <= x1 && rows <= y1 && rows <= y2 && (rows
            == x1 || rows == y1 || rows == y2)),
{
}

} // verus!
