use vstd::prelude::*;

use crate::decode::{
    HerkunftslandV, ProLandV, UebernachtungenNachHerkunftslandStruct, UebernachtungenProLandStruct,
};
use crate::errors::IngestError;
use crate::text::{str_eq_str, trim_spec, trim_str};

verus! {

broadcast use vstd::seq_lib::lemma_seq_contains_after_push;

/// The durable marker of one loaded edition: a year and the German month
/// name it was persisted under.
#[derive(Debug, PartialEq)]
pub struct IngestedPeriod {
    pub jahr: i64,
    pub monat: String,
}

impl View for IngestedPeriod {
    type V = (int, Seq<char>);

    open spec fn view(&self) -> (int, Seq<char>) {
        (self.jahr as int, self.monat@)
    }
}

impl DeepView for IngestedPeriod {
    type V = (int, Seq<char>);

    open spec fn deep_view(&self) -> (int, Seq<char>) {
        self.view()
    }
}

impl Clone for IngestedPeriod {
    fn clone(&self) -> (r: Self)
        ensures
            r@ == self@,
    {
        IngestedPeriod { jahr: self.jahr, monat: self.monat.clone() }
    }
}

/// An origin-region row with its string dimensions trimmed, as the write
/// boundary trims them.
pub open spec fn trimmed_origin(s: HerkunftslandV) -> HerkunftslandV {
    HerkunftslandV {
        herkunftsregion: trim_spec(s.herkunftsregion),
        monat: trim_spec(s.monat),
        ..s
    }
}

/// A by-country row with its string dimensions trimmed.
pub open spec fn trimmed_country(s: ProLandV) -> ProLandV {
    ProLandV {
        land: trim_spec(s.land),
        wohnsitz: trim_spec(s.wohnsitz),
        monat: trim_spec(s.monat),
        ..s
    }
}

/// Clones an optional string.
fn clone_opt_string(o: &Option<String>) -> (r: Option<String>)
    ensures
        crate::decode::opt_seq(r) == crate::decode::opt_seq(*o),
{
    match o {
        Option::Some(s) => Some(s.clone()),
        Option::None => None,
    }
}

/// The origin-region row as the store writes it: string dimensions
/// trimmed immediately before the write.
pub fn trimmed_origin_row(rec: &UebernachtungenNachHerkunftslandStruct) -> (r:
    UebernachtungenNachHerkunftslandStruct)
    ensures
        r@ == trimmed_origin(rec@),
{
    UebernachtungenNachHerkunftslandStruct {
        herkunftsregion: trim_str(rec.herkunftsregion.as_str()),
        jahr: rec.jahr,
        monat: trim_str(rec.monat.as_str()),
        ankuenfte_anzahl: rec.ankuenfte_anzahl,
        ankuenfte_veraenderung_zum_vorjahreszeitraum_prozent: clone_opt_string(
            &rec.ankuenfte_veraenderung_zum_vorjahreszeitraum_prozent,
        ),
        uebernachtungen_anzahl: rec.uebernachtungen_anzahl,
        uebernachtungen_veraenderung_zum_vorjahreszeitraum_prozent: clone_opt_string(
            &rec.uebernachtungen_veraenderung_zum_vorjahreszeitraum_prozent,
        ),
        durchsch_aufenthaltsdauer_tage: clone_opt_string(&rec.durchsch_aufenthaltsdauer_tage),
    }
}

/// The by-country row as the store writes it.
pub fn trimmed_country_row(rec: &UebernachtungenProLandStruct) -> (r: UebernachtungenProLandStruct)
    ensures
        r@ == trimmed_country(rec@),
{
    UebernachtungenProLandStruct {
        land: trim_str(rec.land.as_str()),
        wohnsitz: trim_str(rec.wohnsitz.as_str()),
        jahr: rec.jahr,
        monat: trim_str(rec.monat.as_str()),
        ankuenfte_anzahl: rec.ankuenfte_anzahl,
        ankuenfte_veraenderung_zum_vorjahreszeitraum_prozent: clone_opt_string(
            &rec.ankuenfte_veraenderung_zum_vorjahreszeitraum_prozent,
        ),
        uebernachtungen_anzahl: rec.uebernachtungen_anzahl,
        uebernachtungen_veraenderung_zum_vorjahreszeitraum_prozent: clone_opt_string(
            &rec.uebernachtungen_veraenderung_zum_vorjahreszeitraum_prozent,
        ),
        durchsch_aufenthaltsdauer_tage: clone_opt_string(&rec.durchsch_aufenthaltsdauer_tage),
    }
}

/// The two record collections, trimmed row by row.
pub open spec fn trimmed_origin_seq(rows: Seq<HerkunftslandV>) -> Seq<HerkunftslandV> {
    rows.map_values(|r: HerkunftslandV| trimmed_origin(r))
}

pub open spec fn trimmed_country_seq(rows: Seq<ProLandV>) -> Seq<ProLandV> {
    rows.map_values(|r: ProLandV| trimmed_country(r))
}

/// Whether some committed row carries the period `p`.
pub open spec fn store_has_period(
    origin: Seq<HerkunftslandV>,
    country: Seq<ProLandV>,
    p: (int, Seq<char>),
) -> bool {
    (exists|i: int|
        0 <= i < origin.len() && ((#[trigger] origin[i]).jahr, origin[i].monat) == p) || (
    exists|i: int|
        0 <= i < country.len() && ((#[trigger] country[i]).jahr, country[i].monat) == p)
}

/// An in-memory model of the relational store: the two append-only record
/// collections that editions are committed to.  It carries the system's
/// consistency guarantee — ingestion is atomic per edition, not per row —
/// and answers the distinct-periods query that each run's work set is
/// computed from.
#[derive(Debug)]
pub struct StoreModel {
    pub origin_rows: Vec<UebernachtungenNachHerkunftslandStruct>,
    pub country_rows: Vec<UebernachtungenProLandStruct>,
}

/// Whether the collected periods already hold `(jahr, monat)`.
fn periods_contain(r: &Vec<IngestedPeriod>, jahr: i64, monat: &str) -> (b: bool)
    ensures
        b == r.deep_view().contains((jahr as int, monat@)),
{
    let mut i: usize = 0;
    while i < r.len()
        invariant
            0 <= i <= r.len(),
            forall|k: int| 0 <= k < i ==> r.deep_view()[k] != (jahr as int, monat@),
        decreases r.len() - i,
    {
        if r[i].jahr == jahr && str_eq_str(r[i].monat.as_str(), monat) {
            proof {
                assert(r.deep_view()[i as int] == (jahr as int, monat@));
            }
            return true;
        }
        proof {
            assert(r.deep_view()[i as int] == r@[i as int]@);
        }
        i += 1;
    }
    proof {
        assert(!r.deep_view().contains((jahr as int, monat@)));
    }
    false
}

impl StoreModel {
    /// An empty store.
    pub fn new() -> (r: StoreModel)
        ensures
            r.origin_rows@.len() == 0,
            r.country_rows@.len() == 0,
    {
        StoreModel { origin_rows: Vec::new(), country_rows: Vec::new() }
    }

    /// The distinct (year, month-name) pairs already committed, the
    /// point-in-time snapshot each run filters its work set against.
    pub fn already_ingested(&self) -> (r: Vec<IngestedPeriod>)
        ensures
            forall|k: int|
                0 <= k < r.deep_view().len() ==> store_has_period(
                    self.origin_rows.deep_view(),
                    self.country_rows.deep_view(),
                    #[trigger] r.deep_view()[k],
                ),
            forall|p: (int, Seq<char>)|
                store_has_period(self.origin_rows.deep_view(), self.country_rows.deep_view(), p)
                    ==> r.deep_view().contains(p),
            forall|k1: int, k2: int|
                0 <= k1 < k2 < r.deep_view().len() ==> #[trigger] r.deep_view()[k1]
                    != #[trigger] r.deep_view()[k2],
    {
        let ghost og = self.origin_rows.deep_view();
        let ghost cg = self.country_rows.deep_view();
        let mut out: Vec<IngestedPeriod> = Vec::new();
        let mut i: usize = 0;
        while i < self.origin_rows.len()
            invariant
                0 <= i <= self.origin_rows.len(),
                og == self.origin_rows.deep_view(),
                cg == self.country_rows.deep_view(),
                forall|k: int|
                    0 <= k < out.deep_view().len() ==> store_has_period(
                        og,
                        cg,
                        #[trigger] out.deep_view()[k],
                    ),
                forall|j: int|
                    0 <= j < i ==> out.deep_view().contains(
                        ((#[trigger] og[j]).jahr, og[j].monat),
                    ),
                forall|k1: int, k2: int|
                    0 <= k1 < k2 < out.deep_view().len() ==> #[trigger] out.deep_view()[k1]
                        != #[trigger] out.deep_view()[k2],
            decreases self.origin_rows.len() - i,
        {
            let row = &self.origin_rows[i];
            proof {
                assert(og[i as int] == row@);
            }
            if !periods_contain(&out, row.jahr, row.monat.as_str()) {
                let ghost old_out = out.deep_view();
                out.push(IngestedPeriod { jahr: row.jahr, monat: row.monat.clone() });
                proof {
                    assert(out.deep_view() =~= old_out.push((row.jahr as int, row.monat@)));
                    assert(store_has_period(og, cg, (og[i as int].jahr, og[i as int].monat)));
                }
            }
            i += 1;
        }
        let mut j: usize = 0;
        while j < self.country_rows.len()
            invariant
                0 <= j <= self.country_rows.len(),
                og == self.origin_rows.deep_view(),
                cg == self.country_rows.deep_view(),
                forall|k: int|
                    0 <= k < out.deep_view().len() ==> store_has_period(
                        og,
                        cg,
                        #[trigger] out.deep_view()[k],
                    ),
                forall|jj: int|
                    0 <= jj < og.len() ==> out.deep_view().contains(
                        ((#[trigger] og[jj]).jahr, og[jj].monat),
                    ),
                forall|jj: int|
                    0 <= jj < j ==> out.deep_view().contains(
                        ((#[trigger] cg[jj]).jahr, cg[jj].monat),
                    ),
                forall|k1: int, k2: int|
                    0 <= k1 < k2 < out.deep_view().len() ==> #[trigger] out.deep_view()[k1]
                        != #[trigger] out.deep_view()[k2],
            decreases self.country_rows.len() - j,
        {
            let row = &self.country_rows[j];
            proof {
                assert(cg[j as int] == row@);
            }
            if !periods_contain(&out, row.jahr, row.monat.as_str()) {
                let ghost old_out = out.deep_view();
                out.push(IngestedPeriod { jahr: row.jahr, monat: row.monat.clone() });
                proof {
                    assert(out.deep_view() =~= old_out.push((row.jahr as int, row.monat@)));
                    assert(store_has_period(og, cg, (cg[j as int].jahr, cg[j as int].monat)));
                    assert(forall|k: int|
                        0 <= k < old_out.len() ==> #[trigger] out.deep_view()[k] == old_out[k]);
                }
            }
            j += 1;
        }
        proof {
            assert forall|p: (int, Seq<char>)|
                store_has_period(og, cg, p) implies out.deep_view().contains(p) by {
                if exists|ii: int|
                    0 <= ii < og.len() && ((#[trigger] og[ii]).jahr, og[ii].monat) == p {
                    let ii = choose|ii: int|
                        0 <= ii < og.len() && ((#[trigger] og[ii]).jahr, og[ii].monat) == p;
                    assert(out.deep_view().contains((og[ii].jahr, og[ii].monat)));
                } else {
                    let ii = choose|ii: int|
                        0 <= ii < cg.len() && ((#[trigger] cg[ii]).jahr, cg[ii].monat) == p;
                    assert(out.deep_view().contains((cg[ii].jahr, cg[ii].monat)));
                }
            }
        }
        out
    }

    /// Commits one edition transactionally: every origin row, then every
    /// country row, string dimensions trimmed immediately before the
    /// write.  When the store fails on the `k`-th insert — modelled by
    /// `fail_at` — the whole edition rolls back: no partial load is ever
    /// observable.
    pub fn commit_edition(
        &mut self,
        origin: &Vec<UebernachtungenNachHerkunftslandStruct>,
        country: &Vec<UebernachtungenProLandStruct>,
        fail_at: Option<usize>,
    ) -> (r: Result<(), IngestError>)
        ensures
            r is Ok <==> (match fail_at {
                Option::Some(k) => k >= origin@.len() + country@.len(),
                Option::None => true,
            }),
            r is Ok ==> final(self).origin_rows.deep_view() == old(
                self,
            ).origin_rows.deep_view() + trimmed_origin_seq(origin.deep_view()),
            r is Ok ==> final(self).country_rows.deep_view() == old(
                self,
            ).country_rows.deep_view() + trimmed_country_seq(country.deep_view()),
            r is Err ==> *final(self) == *old(self),
            r is Err ==> (fail_at matches Some(k) && r == Err::<(), IngestError>(
                IngestError::StoreError { at: k },
            )),
    {
        match fail_at {
            Option::Some(k) => {
                if (k as u128) < origin.len() as u128 + country.len() as u128 {
                    return Err(IngestError::StoreError { at: k });
                }
            },
            Option::None => {},
        }
        let ghost old_og = self.origin_rows.deep_view();
        let ghost old_cg = self.country_rows.deep_view();
        let mut i: usize = 0;
        while i < origin.len()
            invariant
                0 <= i <= origin.len(),
                self.country_rows == old(self).country_rows,
                old_og == old(self).origin_rows.deep_view(),
                self.origin_rows.deep_view() =~= old_og + trimmed_origin_seq(
                    origin.deep_view().subrange(0, i as int),
                ),
            decreases origin.len() - i,
        {
            let row = trimmed_origin_row(&origin[i]);
            let ghost before = self.origin_rows.deep_view();
            self.origin_rows.push(row);
            proof {
                assert(self.origin_rows.deep_view() =~= before.push(
                    trimmed_origin(origin.deep_view()[i as int]),
                ));
                assert(origin.deep_view().subrange(0, i as int + 1) =~= origin.deep_view().subrange(
                    0,
                    i as int,
                ).push(origin.deep_view()[i as int]));
                assert(trimmed_origin_seq(origin.deep_view().subrange(0, i as int + 1))
                    =~= trimmed_origin_seq(origin.deep_view().subrange(0, i as int)).push(
                    trimmed_origin(origin.deep_view()[i as int]),
                ));
                assert(self.origin_rows.deep_view() =~= old_og + trimmed_origin_seq(
                    origin.deep_view().subrange(0, i as int + 1),
                ));
            }
            i += 1;
        }
        let mut j: usize = 0;
        while j < country.len()
            invariant
                0 <= j <= country.len(),
                old_og == old(self).origin_rows.deep_view(),
                old_cg == old(self).country_rows.deep_view(),
                self.origin_rows.deep_view() =~= old_og + trimmed_origin_seq(
                    origin.deep_view().subrange(0, origin.deep_view().len() as int),
                ),
                self.country_rows.deep_view() =~= old_cg + trimmed_country_seq(
                    country.deep_view().subrange(0, j as int),
                ),
            decreases country.len() - j,
        {
            let row = trimmed_country_row(&country[j]);
            let ghost before = self.country_rows.deep_view();
            self.country_rows.push(row);
            proof {
                assert(self.country_rows.deep_view() =~= before.push(
                    trimmed_country(country.deep_view()[j as int]),
                ));
                assert(country.deep_view().subrange(0, j as int + 1)
                    =~= country.deep_view().subrange(0, j as int).push(
                    country.deep_view()[j as int],
                ));
                assert(trimmed_country_seq(country.deep_view().subrange(0, j as int + 1))
                    =~= trimmed_country_seq(country.deep_view().subrange(0, j as int)).push(
                    trimmed_country(country.deep_view()[j as int]),
                ));
                assert(self.country_rows.deep_view() =~= old_cg + trimmed_country_seq(
                    country.deep_view().subrange(0, j as int + 1),
                ));
            }
            j += 1;
        }
        proof {
            assert(origin.deep_view().subrange(0, origin.deep_view().len() as int)
                =~= origin.deep_view());
            assert(country.deep_view().subrange(0, country.deep_view().len() as int)
                =~= country.deep_view());
        }
        Ok(())
    }
}

} // verus!
