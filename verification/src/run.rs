use vstd::prelude::*;

use crate::catalog::{TableOfContent, TocV};
use crate::decode::{
    spec_parse_country_table, spec_parse_origin_table, parse_range_herkunftsland,
    parse_range_pro_land, HerkunftslandV, ProLandV, UebernachtungenNachHerkunftslandStruct,
    UebernachtungenProLandStruct,
};
use crate::errors::IngestError;
use crate::months::{month_name, translate_to_month};
use crate::store::IngestedPeriod;
use crate::text::str_eq_str;
use crate::xlsx::{load_xlsx_file, spec_load_xlsx};

verus! {

broadcast use Seq::lemma_filter_push, Seq::lemma_take_succ_push, Seq::lemma_take_len;

// ---------------------------------------------------------------------------
// The work set
// ---------------------------------------------------------------------------
/// Whether the snapshot of committed periods holds the pair.
pub open spec fn spec_is_ingested(
    already: Seq<(int, Seq<char>)>,
    year: int,
    mname: Seq<char>,
) -> bool {
    exists|i: int| 0 <= i < already.len() && #[trigger] already[i] == (year, mname)
}

/// The new-work set: the catalog's editions, in catalog order, without
/// those whose (year, translated month) the store already holds.
pub open spec fn spec_new_editions(
    cat: Seq<TocV>,
    already: Seq<(int, Seq<char>)>,
) -> Seq<TocV> {
    cat.filter(|e: TocV| !spec_is_ingested(already, e.year, month_name(e.month)))
}

/// Whether one edition's period is in the committed snapshot.
fn edition_is_ingested(edition: &TableOfContent, already: &Vec<IngestedPeriod>) -> (r: bool)
    requires
        1 <= edition.month <= 12,
    ensures
        r == spec_is_ingested(
            already.deep_view(),
            edition@.year,
            month_name(edition@.month),
        ),
{
    let name = translate_to_month(edition.month);
    let mut i: usize = 0;
    while i < already.len()
        invariant
            0 <= i <= already.len(),
            name@ == month_name(edition@.month),
            forall|k: int|
                0 <= k < i ==> already.deep_view()[k] != (edition@.year, month_name(
                    edition@.month,
                )),
        decreases already.len() - i,
    {
        let p = &already[i];
        if p.jahr == edition.year as i64 && str_eq_str(p.monat.as_str(), name.as_str()) {
            proof {
                assert(already.deep_view()[i as int] == (edition@.year, month_name(
                    edition@.month,
                )));
            }
            return true;
        }
        proof {
            assert(already.deep_view()[i as int] == already@[i as int]@);
        }
        i += 1;
    }
    false
}

/// Filters the catalog against the committed snapshot: what the run still
/// has to fetch, decode and commit, in catalog order.
pub fn compute_new_editions(
    catalog: &Vec<TableOfContent>,
    already: &Vec<IngestedPeriod>,
) -> (r: Vec<TableOfContent>)
    requires
        forall|i: int| 0 <= i < catalog@.len() ==> 1 <= (#[trigger] catalog@[i]).month <= 12,
    ensures
        r.deep_view() == spec_new_editions(catalog.deep_view(), already.deep_view()),
{
    let ghost cat = catalog.deep_view();
    let ghost al = already.deep_view();
    let ghost pred = |e: TocV| !spec_is_ingested(al, e.year, month_name(e.month));
    let mut out: Vec<TableOfContent> = Vec::new();
    let mut i: usize = 0;
    proof {
        assert(cat.take(0) =~= Seq::<TocV>::empty());
        Seq::<TocV>::empty().lemma_all_neg_filter_empty(pred);
    }
    while i < catalog.len()
        invariant
            0 <= i <= catalog.len(),
            cat == catalog.deep_view(),
            al == already.deep_view(),
            cat.len() == catalog@.len(),
            forall|k: int| 0 <= k < cat.len() ==> 1 <= (#[trigger] catalog@[k]).month <= 12,
            forall|k: int| 0 <= k < cat.len() ==> cat[k] == catalog@[k]@,
            pred == (|e: TocV| !spec_is_ingested(al, e.year, month_name(e.month))),
            out.deep_view() == cat.take(i as int).filter(pred),
        decreases catalog.len() - i,
    {
        let edition = &catalog[i];
        proof {
            assert(cat[i as int] == edition@);
        }
        if !edition_is_ingested(edition, already) {
            let ghost old_out = out.deep_view();
            out.push(edition.clone());
            proof {
                assert(out.deep_view() =~= old_out.push(edition@));
                assert(pred(cat[i as int]));
            }
        } else {
            proof {
                assert(!pred(cat[i as int]));
            }
        }
        proof {
            assert(cat.take(i + 1) =~= cat.take(i as int).push(cat[i as int]));
        }
        i += 1;
    }
    proof {
        assert(cat.take(cat.len() as int) == cat);
    }
    out
}

/// An edition whose (year, translated month) the store already holds is
/// excluded from the new-work set.
pub proof fn lemma_ingested_edition_excluded(
    cat: Seq<TocV>,
    already: Seq<(int, Seq<char>)>,
    i: int,
)
    requires
        0 <= i < cat.len(),
        spec_is_ingested(already, cat[i].year, month_name(cat[i].month)),
    ensures
        !spec_new_editions(cat, already).contains(cat[i]),
{
    let pred = |e: TocV| !spec_is_ingested(already, e.year, month_name(e.month));
    let f = spec_new_editions(cat, already);
    if f.contains(cat[i]) {
        let j = choose|j: int| 0 <= j < f.len() && f[j] == cat[i];
        cat.lemma_filter_pred(pred, j);
        assert(pred(cat[i]));
        assert(false);
    }
}

/// One change notification is owed after a run exactly when its work set
/// was not empty: every new edition sets the data-changed flag, and the
/// notification fires once after all of them committed.
pub fn should_notify(new_editions: &Vec<TableOfContent>) -> (r: bool)
    ensures
        r == (new_editions@.len() > 0),
{
    new_editions.len() > 0
}

// ---------------------------------------------------------------------------
// One edition, from spreadsheet bytes to typed records
// ---------------------------------------------------------------------------
/// How an edition's downloaded bytes resolve to its two record
/// collections: the workbook opens, both sheets are present, and both
/// tables decode; the first failure aborts the edition.
pub open spec fn spec_decode_edition(b: Seq<u8>) -> Result<
    (Seq<HerkunftslandV>, Seq<ProLandV>),
    IngestError,
> {
    match spec_load_xlsx(b) {
        Err(e) => Err(e),
        Ok(grids) => match spec_parse_origin_table(grids.0) {
            Err(e) => Err(e),
            Ok(o) => match spec_parse_country_table(grids.1) {
                Err(e) => Err(e),
                Ok(c) => Ok((o, c)),
            },
        },
    }
}

/// Opens an edition's spreadsheet bytes, extracts both sheets and decodes
/// both record kinds; no record is emitted unless the whole edition
/// decodes.
pub fn decode_edition(bytes: &[u8]) -> (r: Result<
    (Vec<UebernachtungenNachHerkunftslandStruct>, Vec<UebernachtungenProLandStruct>),
    IngestError,
>)
    ensures
        match spec_decode_edition(bytes@) {
            Ok(oc) => (r matches Ok(p) && p.0.deep_view() == oc.0 && p.1.deep_view() == oc.1),
            Err(e) => r == Err::<
                (Vec<UebernachtungenNachHerkunftslandStruct>, Vec<UebernachtungenProLandStruct>),
                IngestError,
            >(e),
        },
{
    let data = match load_xlsx_file(bytes) {
        Ok(x) => x,
        Err(e) => {
            return Err(e);
        },
    };
    let origin = match parse_range_herkunftsland(&data.uebernachtungen_nach_herkunftsland) {
        Ok(v) => v,
        Err(e) => {
            return Err(e);
        },
    };
    let country = match parse_range_pro_land(&data.uebernachtungen_pro_land) {
        Ok(v) => v,
        Err(e) => {
            return Err(e);
        },
    };
    Ok((origin, country))
}

} // verus!
