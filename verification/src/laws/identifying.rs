//! How control modules are told apart.

use vstd::prelude::*;

use crate::identify::{
    channel_of, did_text, extra_dids, foreign_reason, head, info, is_digit, is_letter,
    last_position, matching_below, of_confidence, page, part_from_odx, possible_below, project_of,
    project_owner, ranked, rows_below, shown, simos_offers, strings_of, variants_below,
    without_revision, Confidence, Info, Offer, Strings,
};
use crate::module::Registry;
use crate::text::{is_white, lowered, raised};

verus! {

/// Which identifier each identification string is read from.
pub proof fn law_where_the_strings_come_from(dids: Map<u16, Seq<u8>>)
    ensures
        strings_of(dids).odx_file_identifier == did_text(dids, 0xF19E),
        strings_of(dids).odx_file_version == did_text(dids, 0xF1A2),
        strings_of(dids).spare_part_number == did_text(dids, 0xF187),
        strings_of(dids).system_name == did_text(dids, 0xF197),
        strings_of(dids).boot_loader_identification == did_text(dids, 0xF1F4),
        crate::identify::IDENT_DIDS@ == seq![0xF19Eu16, 0xF1A2u16, 0xF187u16, 0xF197u16, 0xF1F4u16],
{
    assert(crate::identify::IDENT_DIDS@ =~= seq![
        0xF19Eu16,
        0xF1A2u16,
        0xF187u16,
        0xF197u16,
        0xF1F4u16,
    ]);
}

/// The channels by their identifiers, and the modules that are looked for on each.
pub proof fn law_the_channels(txid: u32, rxid: u32)
    ensures
        channel_of(0x7E0, 0x7E8) matches Some(c) && c.kind is SimosEngine && c.modules == seq![
            "simos18"@,
            "simos1810"@,
            "simos184"@,
        ],
        channel_of(0x7E1, 0x7E9) matches Some(c) && c.kind is Transmission && c.modules == seq![
            "dq250"@,
            "dq381"@,
        ],
        channel_of(0x70F, 0x779) matches Some(c) && c.kind is HaldexAwd && c.modules == seq![
            "haldex"@,
        ],
        channel_of(txid, rxid) matches Some(c) ==> c.txid == txid && c.rxid == rxid,
{
}

proof fn lemma_head(h: Seq<char>, rest: Seq<char>)
    requires
        forall|k: int| 0 <= k < h.len() ==> (#[trigger] h[k]) != '.' && !is_white(h[k]),
        rest.len() == 0 || rest[0] == '.' || is_white(rest[0]),
    ensures
        head(h + rest) == h,
    decreases h.len(),
{
    let s = h + rest;
    if h.len() == 0 {
        assert(s =~= rest);
    } else {
        let tail = h.skip(1);
        assert(s[0] == h[0]);
        assert(s.skip(1) =~= tail + rest);
        assert forall|k: int| 0 <= k < tail.len() implies (#[trigger] tail[k]) != '.' && !is_white(
            tail[k],
        ) by {
            assert(tail[k] == h[k + 1]);
        }
        lemma_head(tail, rest);
        assert(seq![h[0]] + tail =~= h);
    }
}

/// An ASCII letter or digit.
pub open spec fn plain(c: char) -> bool {
    '0' <= c <= '9' || 'a' <= c <= 'z' || 'A' <= c <= 'Z'
}

/// A bootloader names its project in front of the first dot or white space: two to four
/// letters and digits, and not digits alone.
pub proof fn law_how_a_bootloader_names_its_project(h: Seq<char>, rest: Seq<char>)
    requires
        forall|k: int| 0 <= k < h.len() ==> (#[trigger] h[k]) != '.' && !is_white(h[k]),
        rest.len() == 0 || rest[0] == '.' || is_white(rest[0]),
    ensures
        2 <= h.len() <= 4 && (forall|k: int| 0 <= k < h.len() ==> plain(#[trigger] h[k])) && (
        exists|k: int| 0 <= k < h.len() && plain(#[trigger] h[k]) && !('0' <= h[k] <= '9'))
            ==> project_of(h + rest) == Some(h),
        h.len() < 2 || h.len() > 4 || (exists|k: int| 0 <= k < h.len() && !plain(#[trigger] h[k]))
            || (forall|k: int| 0 <= k < h.len() ==> '0' <= #[trigger] h[k] <= '9') ==> project_of(
            h + rest,
        ) is None,
{
    lemma_head(h, rest);
    if exists|k: int| 0 <= k < h.len() && plain(#[trigger] h[k]) && !('0' <= h[k] <= '9') {
        let k = choose|k: int| 0 <= k < h.len() && plain(#[trigger] h[k]) && !('0' <= h[k] <= '9');
        assert(is_letter(h[k]));
    }
    if forall|k: int| 0 <= k < h.len() ==> plain(#[trigger] h[k]) {
        assert forall|k: int| 0 <= k < h.len() implies is_digit(#[trigger] h[k]) || is_letter(
            h[k],
        ) by {
            assert(plain(h[k]));
        }
    }
    if exists|k: int| 0 <= k < h.len() && !plain(#[trigger] h[k]) {
        let k = choose|k: int| 0 <= k < h.len() && !plain(#[trigger] h[k]);
        assert(!is_digit(h[k]) && !is_letter(h[k]));
    }
}

proof fn lemma_last_position(front: Seq<char>, back: Seq<char>, c: char)
    requires
        forall|k: int| 0 <= k < back.len() ==> (#[trigger] back[k]) != c,
    ensures
        last_position(front + seq![c] + back, c) == Some(front.len() as int),
        last_position(front + back, c) == last_position(front, c),
    decreases back.len(),
{
    if back.len() == 0 {
        assert((front + seq![c] + back).last() == c);
        assert(front + back =~= front);
    } else {
        let shorter = back.drop_last();
        lemma_last_position(front, shorter, c);
        assert((front + seq![c] + back).drop_last() =~= front + seq![c] + shorter);
        assert((front + seq![c] + back).last() == back[back.len() - 1]);
        assert((front + back).drop_last() =~= front + shorter);
        assert((front + back).last() == back[back.len() - 1]);
    }
}

/// A part number: ten letters and digits, with some of each.
pub open spec fn ten_plain(p: Seq<char>) -> bool {
    &&& p.len() == 10
    &&& forall|k: int| 0 <= k < 10 ==> plain(#[trigger] p[k])
    &&& exists|k: int| 0 <= k < 10 && '0' <= #[trigger] p[k] <= '9'
    &&& exists|k: int| 0 <= k < 10 && plain(#[trigger] p[k]) && !('0' <= p[k] <= '9')
}

/// The last ten characters of an identifier are its part number, in capitals; an
/// underscore and three digits behind them are a revision and are left out.
pub proof fn law_the_part_number_of_an_identifier(
    front: Seq<char>,
    part: Seq<char>,
    revision: Seq<char>,
)
    requires
        ten_plain(part),
        vstd::utf8::is_ascii_chars(front),
        revision.len() == 3,
        forall|k: int| 0 <= k < 3 ==> '0' <= #[trigger] revision[k] <= '9',
    ensures
        part_from_odx(front + part + seq!['_'] + revision) == Some(raised(part)),
        part_from_odx(front + part) == Some(raised(part)),
{
    let core = front + part;
    let whole = core + seq!['_'] + revision;
    lemma_last_position(core, revision, '_');
    assert forall|k: int| core.len() < k < whole.len() implies is_digit(#[trigger] whole[k]) by {
        assert(whole[k] == revision[k - core.len() - 1]);
    }
    assert(whole.take(core.len() as int) =~= core);
    assert(without_revision(whole) == core);
    assert forall|k: int| 0 <= k < 10 implies is_digit(#[trigger] part[k]) || is_letter(part[k]) by {
        assert(plain(part[k]));
    }
    let l = choose|k: int| 0 <= k < 10 && plain(#[trigger] part[k]) && !('0' <= part[k] <= '9');
    assert(is_letter(part[l]));
    let d = choose|k: int| 0 <= k < 10 && '0' <= #[trigger] part[k] <= '9';
    assert(is_digit(part[d]));
    assert(core.skip(core.len() - 10) =~= part);
    lemma_last_position(front, part, '_');
    match last_position(front, '_') {
        Some(i) => {
            lemma_position_is_inside(front, '_');
            assert(core.len() - i > 10);
        },
        None => {},
    }
    assert(without_revision(core) == core);
    assert(vstd::utf8::is_ascii_chars(core)) by {
        assert forall|k: int| 0 <= k < core.len() implies 0 <= #[trigger] core[k] as nat
            && core[k] as nat <= 127 by {
            if k < front.len() {
                assert(core[k] == front[k]);
            } else {
                assert(core[k] == part[k - front.len()]);
            }
        }
    }
    assert(vstd::utf8::is_ascii_chars(whole)) by {
        assert forall|k: int| 0 <= k < whole.len() implies 0 <= #[trigger] whole[k] as nat
            && whole[k] as nat <= 127 by {
            if k < core.len() {
                assert(whole[k] == core[k]);
            } else if k > core.len() {
                assert(whole[k] == revision[k - core.len() - 1]);
            }
        }
    }
}

proof fn lemma_position_is_inside(s: Seq<char>, c: char)
    ensures
        last_position(s, c) matches Some(i) ==> 0 <= i < s.len(),
    decreases s.len(),
{
    if s.len() > 0 {
        lemma_position_is_inside(s.drop_last(), c);
    }
}

/// The spare part number that a module reports goes before the one in its identifier.
pub proof fn law_which_part_number_counts(strings: Strings)
    ensures
        strings.spare_part_number matches Some(p) ==> strings.part_number() == Some(raised(p)),
        strings.spare_part_number is None && strings.odx_file_identifier is None
            ==> strings.part_number() is None,
        strings.spare_part_number is None ==> (strings.odx_file_identifier matches Some(id)
            ==> strings.part_number() == part_from_odx(id)),
{
}

proof fn lemma_of_confidence_keeps(all: Seq<Offer>, c: Confidence, o: Offer)
    ensures
        of_confidence(all, c).contains(o) == (all.contains(o) && o.confidence == c),
    decreases all.len(),
{
    if all.len() == 0 {
    } else {
        let shorter = all.drop_last();
        let before = of_confidence(shorter, c);
        lemma_of_confidence_keeps(shorter, c, o);
        assert(all =~= shorter.push(all.last()));
        if shorter.contains(o) {
            let i = choose|i: int| 0 <= i < shorter.len() && shorter[i] == o;
            assert(all[i] == o);
        }
        if all.contains(o) && all.last() != o {
            let i = choose|i: int| 0 <= i < all.len() && all[i] == o;
            assert(shorter[i] == o);
        }
        let now = of_confidence(all, c);
        if before.contains(o) {
            let i = choose|i: int| 0 <= i < before.len() && before[i] == o;
            assert(now[i] == o);
        }
        if all.last().confidence == c {
            assert(now.last() == all.last());
            if now.contains(o) && o != all.last() {
                let i = choose|i: int| 0 <= i < now.len() && now[i] == o;
                assert(before[i] == o);
            }
            if o == all.last() {
                assert(all[all.len() - 1] == o);
                assert(now[now.len() - 1] == o);
            }
        } else if all.contains(o) && o.confidence == c {
            assert(o != all.last());
        }
    }
}

/// Ranking candidates loses none and adds none.
pub proof fn law_ranking_loses_nothing(all: Seq<Offer>, o: Offer)
    ensures
        ranked(all).contains(o) == all.contains(o),
{
    let a = of_confidence(all, Confidence::Confirmed);
    let b = of_confidence(all, Confidence::Likely);
    let c = of_confidence(all, Confidence::Possible);
    let d = of_confidence(all, Confidence::Ambiguous);
    lemma_of_confidence_keeps(all, Confidence::Confirmed, o);
    lemma_of_confidence_keeps(all, Confidence::Likely, o);
    lemma_of_confidence_keeps(all, Confidence::Possible, o);
    lemma_of_confidence_keeps(all, Confidence::Ambiguous, o);
    lemma_contains_either(a, b, o);
    lemma_contains_either(a + b, c, o);
    lemma_contains_either(a + b + c, d, o);
}

proof fn lemma_contains_either(a: Seq<Offer>, b: Seq<Offer>, o: Offer)
    ensures
        (a + b).contains(o) == (a.contains(o) || b.contains(o)),
{
    let both = a + b;
    if a.contains(o) {
        let i = choose|i: int| 0 <= i < a.len() && a[i] == o;
        assert(both[i] == o);
    }
    if b.contains(o) {
        let i = choose|i: int| 0 <= i < b.len() && b[i] == o;
        assert(both[a.len() + i] == o);
    }
    if both.contains(o) {
        let i = choose|i: int| 0 <= i < both.len() && both[i] == o;
        if i < a.len() {
            assert(a[i] == o);
        } else {
            assert(b[i - a.len()] == o);
        }
    }
}

/// The part number is that of a box code: the ten characters that it begins with.
pub open spec fn boxed(strings: Strings, code: Seq<char>) -> bool {
    strings.part_number() matches Some(pn) && pn.len() >= 10 && pn.take(10) == code
}

proof fn lemma_codes()
    ensures
        "8V0906259H"@.len() == 10,
        "5G0906259Q"@.len() == 10,
        "80A906259F"@.len() == 10,
        "8V0906259H"@ != "5G0906259Q"@,
        "8V0906259H"@ != "80A906259F"@,
        "5G0906259Q"@ != "80A906259F"@,
        "simos18"@ != "simos1810"@,
        "simos18"@ != "simos184"@,
        "simos1810"@ != "simos184"@,
{
    reveal_strlit("8V0906259H");
    reveal_strlit("5G0906259Q");
    reveal_strlit("80A906259F");
    reveal_strlit("simos18");
    reveal_strlit("simos1810");
    reveal_strlit("simos184");
    assert("8V0906259H"@[1] != "5G0906259Q"@[1]);
    assert("8V0906259H"@[1] != "80A906259F"@[1]);
    assert("5G0906259Q"@[1] != "80A906259F"@[1]);
    assert("simos1810"@.len() == 9 && "simos184"@.len() == 8 && "simos18"@.len() == 7);
}

/// Without a bootloader that names its project, every Simos variant of the registry is
/// offered, and nothing else: as likely where the part number is that of its box code, as
/// possible where it is that of another or the identifier is not one of an engine, and as
/// ambiguous otherwise.
pub proof fn law_how_sure_a_variant_is(
    registry: Registry,
    strings: Strings,
    modules: Seq<Seq<char>>,
    o: Offer,
)
    requires
        strings.project() is None,
        simos_offers(registry, strings, modules).contains(o),
    ensures
        ({
            let a = boxed(strings, "8V0906259H"@);
            let b = boxed(strings, "5G0906259Q"@);
            let c = boxed(strings, "80A906259F"@);
            let own = (o.module_name == "simos18"@ && a) || (o.module_name == "simos1810"@ && b)
                || (o.module_name == "simos184"@ && c);
            let other_kind = strings.odx_file_identifier matches Some(id) && !(id.len() >= 6
                && id.take(6) == "EV_ECM"@);
            &&& o.module_name == "simos18"@ || o.module_name == "simos1810"@ || o.module_name
                == "simos184"@
            &&& registry.spec_get(o.module_name) == Some(o.flash_info)
            &&& o.confidence == Confidence::Likely <==> own
            &&& o.confidence == Confidence::Possible <==> !own && (a || b || c || other_kind)
            &&& o.confidence == Confidence::Ambiguous <==> !(a || b || c || other_kind)
        }),
{
    lemma_codes();
    reveal_strlit("EV_ECM");
    let all = variants_below(registry, strings, 3);
    law_ranking_loses_nothing(all, o);
    reveal_with_fuel(variants_below, 4);
    let i = choose|i: int| 0 <= i < all.len() && all[i] == o;
    assert(all[i] == o);
}

proof fn lemma_no_match(
    registry: Registry,
    modules: Seq<Seq<char>>,
    project: Seq<char>,
    at: int,
    n: nat,
)
    requires
        n <= modules.len(),
        forall|k: int|
            0 <= k < modules.len() && k != at ==> !bears(registry, #[trigger] modules[k], project),
    ensures
        0 <= at < n && bears(registry, modules[at], project) ==> matching_below(
            registry,
            modules,
            project,
            n,
        ) == seq![modules[at]],
        !(0 <= at < n && bears(registry, modules[at], project)) ==> matching_below(
            registry,
            modules,
            project,
            n,
        ) == Seq::<Seq<char>>::empty(),
    decreases n,
{
    if n > 0 {
        lemma_no_match(registry, modules, project, at, (n - 1) as nat);
        let last = modules[n - 1];
        if n - 1 != at {
            assert(!bears(registry, last, project));
        }
        assert(Seq::<Seq<char>>::empty().push(last) =~= seq![last]);
    }
}

/// The registry knows a module by the name, and its project is this one but for case.
pub open spec fn bears(registry: Registry, name: Seq<char>, project: Seq<char>) -> bool {
    registry.spec_get(name) matches Some(f) && lowered(f.project_name@) == lowered(project)
}

/// Where a bootloader names a project that one module of the channel bears, that module
/// alone is offered, and it is confirmed, whatever else was read.
pub proof fn law_a_bootloader_confirms_its_module(
    registry: Registry,
    strings: Strings,
    modules: Seq<Seq<char>>,
    at: int,
)
    requires
        strings.project() is Some,
        0 <= at < modules.len(),
        bears(registry, modules[at], strings.project()->0),
        forall|k: int|
            0 <= k < modules.len() && k != at ==> !bears(
                registry,
                #[trigger] modules[k],
                strings.project()->0,
            ),
    ensures
        simos_offers(registry, strings, modules).len() == 1,
        simos_offers(registry, strings, modules)[0].module_name == modules[at],
        simos_offers(registry, strings, modules)[0].confidence == Confidence::Confirmed,
        registry.spec_get(modules[at]) == Some(
            simos_offers(registry, strings, modules)[0].flash_info,
        ),
{
    lemma_no_match(registry, modules, strings.project()->0, at, modules.len());
}

proof fn lemma_possible_in_order(
    registry: Registry,
    modules: Seq<Seq<char>>,
    strings: Strings,
    reason: Seq<char>,
    n: nat,
)
    requires
        n <= modules.len(),
        forall|k: int| 0 <= k < modules.len() ==> registry.spec_get(#[trigger] modules[k]) is Some,
    ensures
        ({
            let all = possible_below(registry, modules, strings, reason, n);
            &&& all.len() == n
            &&& forall|k: int|
                0 <= k < n ==> (#[trigger] all[k]).module_name == modules[k] && all[k].confidence
                    == Confidence::Possible
        }),
    decreases n,
{
    if n > 0 {
        lemma_possible_in_order(registry, modules, strings, reason, (n - 1) as nat);
        assert(registry.spec_get(modules[n - 1]) is Some);
    }
}

/// Where a bootloader names a project that no module of the channel bears, all of them are
/// offered in order, none as more than possible.
pub proof fn law_a_foreign_bootloader_is_not_ignored(
    registry: Registry,
    strings: Strings,
    modules: Seq<Seq<char>>,
)
    requires
        strings.project() is Some,
        modules.len() > 0,
        forall|k: int| 0 <= k < modules.len() ==> registry.spec_get(#[trigger] modules[k]) is Some,
        forall|k: int|
            0 <= k < modules.len() ==> !bears(
                registry,
                #[trigger] modules[k],
                strings.project()->0,
            ),
    ensures
        ({
            let all = simos_offers(registry, strings, modules);
            &&& all.len() == modules.len()
            &&& forall|k: int|
                0 <= k < modules.len() ==> (#[trigger] all[k]).module_name == modules[k]
                    && all[k].confidence == Confidence::Possible
        }),
{
    let project = strings.project()->0;
    let reported = strings.boot_loader_identification->0;
    lemma_no_match(registry, modules, project, -1, modules.len());
    lemma_possible_in_order(
        registry,
        modules,
        strings,
        foreign_reason(project, reported, project_owner(registry, project)),
        modules.len(),
    );
}

proof fn lemma_rows(registry: Registry, project: Seq<char>, n: nat)
    requires
        n <= registry.modules@.len(),
    ensures
        ({
            let rows = rows_below(registry, project, n);
            &&& forall|k: int|
                0 <= k < rows.len() ==> 0 <= #[trigger] rows[k] < n && named_so(
                    registry,
                    rows[k],
                    project,
                )
            &&& forall|k: int, l: int| 0 <= k < l < rows.len() ==> rows[k] < rows[l]
            &&& forall|i: int|
                0 <= i < n && #[trigger] named_so(registry, i, project) ==> rows.contains(i)
        }),
    decreases n,
{
    if n > 0 {
        lemma_rows(registry, project, (n - 1) as nat);
        let before = rows_below(registry, project, (n - 1) as nat);
        let rows = rows_below(registry, project, n);
        assert forall|i: int| 0 <= i < n && #[trigger] named_so(
            registry,
            i,
            project,
        ) implies rows.contains(i) by {
            if i < n - 1 {
                assert(before.contains(i));
                let k = choose|k: int| 0 <= k < before.len() && before[k] == i;
                assert(rows[k] == i);
            } else {
                let name = registry.modules@[i].1.project_name@;
                if name.len() == 0 {
                    assert(name =~= Seq::<char>::empty());
                }
                assert(rows[rows.len() - 1] == i);
            }
        }
    }
}

/// A row of the registry has a project name, and but for case it is this one.
pub open spec fn named_so(registry: Registry, i: int, project: Seq<char>) -> bool {
    let name = registry.modules@[i].1.project_name@;
    name != Seq::<char>::empty() && lowered(name) == lowered(project)
}

/// A project name leads to the module that bears it, if only one does; a name that two
/// share, or that none bears, leads nowhere.
pub proof fn law_who_owns_a_project(registry: Registry, project: Seq<char>, i: int, j: int)
    requires
        0 <= i < registry.modules@.len(),
        0 <= j < registry.modules@.len(),
    ensures
        named_so(registry, i, project) && (forall|k: int|
            0 <= k < registry.modules@.len() && k != i ==> !#[trigger] named_so(
                registry,
                k,
                project,
            )) ==> project_owner(registry, project) == Some(registry.modules@[i].0@),
        i != j && named_so(registry, i, project) && named_so(registry, j, project)
            ==> project_owner(registry, project) is None,
        (forall|k: int|
            0 <= k < registry.modules@.len() ==> !#[trigger] named_so(registry, k, project))
            ==> project_owner(registry, project) is None,
{
    let n = registry.modules@.len();
    let rows = rows_below(registry, project, n);
    lemma_rows(registry, project, n);
    if named_so(registry, i, project) {
        let a = choose|a: int| 0 <= a < rows.len() && rows[a] == i;
        assert(rows[a] == i);
        if forall|k: int|
            0 <= k < registry.modules@.len() && k != i ==> !#[trigger] named_so(
                registry,
                k,
                project,
            ) {
            if rows.len() > 1 {
                assert(named_so(registry, rows[0], project));
                assert(named_so(registry, rows[1], project));
                assert(rows[0] < rows[1]);
            }
        }
        if i != j && named_so(registry, j, project) {
            let b = choose|b: int| 0 <= b < rows.len() && rows[b] == j;
            assert(rows[b] == j);
        }
    }
    if forall|k: int|
        0 <= k < registry.modules@.len() ==> !#[trigger] named_so(registry, k, project) {
        if rows.len() > 0 {
            assert(named_so(registry, rows[0], project));
        }
    }
}

/// Everything of a table that was answered is on the page, under its label, and nothing
/// else is.
pub proof fn law_what_the_page_shows(table: Seq<Info>, dids: Map<u16, Seq<u8>>, i: int)
    ensures
        0 <= i < table.len() && shown(table[i], dids) is Some ==> page(table, dids).contains(
            (table[i].label, shown(table[i], dids)->0),
        ),
        0 <= i < page(table, dids).len() ==> exists|k: int|
            0 <= k < table.len() && (#[trigger] table[k]).label == page(table, dids)[i].0 && shown(
                table[k],
                dids,
            ) == Some(page(table, dids)[i].1),
    decreases table.len(),
{
    if table.len() > 0 {
        let shorter = table.drop_last();
        let before = page(shorter, dids);
        let now = page(table, dids);
        law_what_the_page_shows(shorter, dids, i);
        if 0 <= i < table.len() && shown(table[i], dids) is Some {
            let row = (table[i].label, shown(table[i], dids)->0);
            if i < shorter.len() {
                assert(shorter[i] == table[i]);
                let k = choose|k: int| 0 <= k < before.len() && before[k] == row;
                assert(now[k] == row);
            } else {
                assert(now[now.len() - 1] == row);
            }
        }
        if 0 <= i < now.len() {
            if i < before.len() {
                let k = choose|k: int|
                    0 <= k < shorter.len() && (#[trigger] shorter[k]).label == before[i].0 && shown(
                        shorter[k],
                        dids,
                    ) == Some(before[i].1);
                assert(table[k] == shorter[k]);
            } else {
                assert(table[table.len() - 1].label == now[i].0);
            }
        }
    }
}

/// A record is shown where it was answered: as text without its padding, or as bytes.
pub proof fn law_how_a_record_is_shown(did: u16, label: Seq<char>, dids: Map<u16, Seq<u8>>)
    ensures
        !dids.contains_key(did) ==> shown(info(did, label, true), dids) is None && shown(
            info(did, label, false),
            dids,
        ) is None,
        dids.contains_key(did) && dids[did].len() > 0 ==> shown(info(did, label, false), dids)
            == Some(crate::text::hex_bytes(dids[did])),
        dids.contains_key(did) && dids[did].len() == 0 ==> shown(
            info(did, label, false),
            dids,
        ) is None,
        dids.contains_key(did) ==> shown(info(did, label, true), dids) == {
            let t = crate::text::trimmed(crate::text::utf8_lossy(dids[did]), true);
            if t == Seq::<char>::empty() {
                None
            } else {
                Some(t)
            }
        },
{
    if dids.contains_key(did) {
        let t = crate::text::trimmed(crate::text::utf8_lossy(dids[did]), true);
        if t.len() == 0 {
            assert(t =~= Seq::<char>::empty());
        }
    }
}

/// What is shown and was not read for the identification is read, and nothing else.
pub proof fn law_what_is_read_for_the_page(table: Seq<Info>, did: u16)
    ensures
        extra_dids(table).contains(did) == ((exists|k: int|
            0 <= k < table.len() && (#[trigger] table[k]).did == did) && did != 0xF19E && did
            != 0xF1A2 && did != 0xF187 && did != 0xF197 && did != 0xF1F4),
    decreases table.len(),
{
    let known = crate::identify::IDENT_DIDS@;
    assert(known[0] == 0xF19E && known[1] == 0xF1A2 && known[2] == 0xF187 && known[3] == 0xF197
        && known[4] == 0xF1F4 && known.len() == 5);
    if table.len() > 0 {
        let shorter = table.drop_last();
        law_what_is_read_for_the_page(shorter, did);
        let before = extra_dids(shorter);
        let now = extra_dids(table);
        let last = table[table.len() - 1];
        if exists|k: int| 0 <= k < shorter.len() && (#[trigger] shorter[k]).did == did {
            let k = choose|k: int| 0 <= k < shorter.len() && (#[trigger] shorter[k]).did == did;
            assert(table[k].did == did);
        }
        if exists|k: int| 0 <= k < table.len() && (#[trigger] table[k]).did == did {
            let k = choose|k: int| 0 <= k < table.len() && (#[trigger] table[k]).did == did;
            if k < shorter.len() {
                assert(shorter[k].did == did);
            }
        }
        if before.contains(did) {
            let k = choose|k: int| 0 <= k < before.len() && before[k] == did;
            assert(now[k] == did);
        }
        if now.contains(did) {
            let k = choose|k: int| 0 <= k < now.len() && now[k] == did;
            if k < before.len() {
                assert(before[k] == did);
            }
        }
        if last.did == did && !known.contains(did) {
            assert(now[now.len() - 1] == did);
        }
    }
}

} // verus!
