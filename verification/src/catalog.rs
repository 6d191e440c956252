use vstd::prelude::*;

use crate::errors::IngestError;
use crate::numbers::{dec_val, lemma_dec_val_bound, lemma_pow10_le_10000, parse_digits_window};
use crate::text::{all_digits, has_prefix, last_path_segment, last_segment, str_has_prefix,
    trim_spec, trim_str};

verus! {

/// One entry of the publisher's catalog page: a monthly edition of the
/// report, identified by year and month, with the edition page's link and
/// the edition identifier derived from it.
#[derive(Debug)]
pub struct TableOfContent {
    pub year: i32,
    pub month: i32,
    pub url: String,
    pub mods_id: String,
}

/// The mathematical shape of a catalog entry.
pub struct TocV {
    pub year: int,
    pub month: int,
    pub url: Seq<char>,
    pub mods_id: Seq<char>,
}

impl View for TableOfContent {
    type V = TocV;

    open spec fn view(&self) -> TocV {
        TocV {
            year: self.year as int,
            month: self.month as int,
            url: self.url@,
            mods_id: self.mods_id@,
        }
    }
}

impl DeepView for TableOfContent {
    type V = TocV;

    open spec fn deep_view(&self) -> TocV {
        self.view()
    }
}

impl Clone for TableOfContent {
    fn clone(&self) -> (r: Self)
        ensures
            r@ == self@,
    {
        TableOfContent {
            year: self.year,
            month: self.month,
            url: self.url.clone(),
            mods_id: self.mods_id.clone(),
        }
    }
}

/// The fixed index page that lists the report's editions.
pub fn catalog_url() -> (r: String)
    ensures
        r@ == "https://www.statistischebibliothek.de/mir/receive/DESerie_mods_00007671"@,
{
    "https://www.statistischebibliothek.de/mir/receive/DESerie_mods_00007671".to_owned()
}

/// What the HTML scraper finds in the catalog page: `None` when the
/// addressed list container is absent; otherwise, for each `li` of that
/// container in document order, the item's text content and the target of
/// its first `a` element, if any.
pub uninterp spec fn catalog_list_items(page: Seq<char>) -> Option<
    Seq<(Seq<char>, Option<Seq<char>>)>,
>;

/// Relies on scraper's `Html::parse_document`, `Selector::parse`,
/// `Html::select`, `ElementRef::select`, `ElementRef::text` and
/// `ElementRef::attr`: addresses the container
/// `#main_col > div:nth-child(2) > ul` and collects each `li`'s text and
/// first link target.  The three selectors are fixed and valid, so
/// `Selector::parse` cannot fail on them.
#[verifier::external_body]
fn scrape_catalog_items(page: &str) -> (r: Option<Vec<(String, Option<String>)>>)
    ensures
        r.deep_view() == catalog_list_items(page@),
{
    let document = scraper::Html::parse_document(page);
    let sel_ul = scraper::Selector::parse("#main_col > div:nth-child(2) > ul").unwrap();
    let sel_li = scraper::Selector::parse("li").unwrap();
    let sel_a = scraper::Selector::parse("a").unwrap();
    let ul = match document.select(&sel_ul).next() {
        Some(x) => x,
        None => return None,
    };
    let mut items: Vec<(String, Option<String>)> = Vec::new();
    for li in ul.select(&sel_li) {
        let text: String = li.text().collect::<String>();
        let href = li.select(&sel_a).next().and_then(|a| a.attr("href")).map(|h| h.to_string());
        items.push((text, href));
    }
    Some(items)
}

/// How one catalog item parses: the trimmed text must begin with a
/// four-digit year, the sixth and seventh characters must be a two-digit
/// month, a link must be present, and the link's final path segment must
/// carry the edition-identifier prefix.
pub open spec fn spec_parse_item(text: Seq<char>, href: Option<Seq<char>>, item: int) -> Result<
    TocV,
    IngestError,
> {
    let t = trim_spec(text);
    if t.len() < 4 || !all_digits(t.subrange(0, 4)) {
        Err(IngestError::ParseBadYear { item: item as usize })
    } else if t.len() < 7 || !all_digits(t.subrange(5, 7)) {
        Err(IngestError::ParseBadMonth { item: item as usize })
    } else {
        match href {
            Option::None => Err(IngestError::ParseNoLink { item: item as usize }),
            Option::Some(u) => {
                let mods = last_segment(u);
                if !has_prefix(mods, "DEHeft_mods_"@) {
                    Err(IngestError::ParseBadEditionId { item: item as usize })
                } else {
                    Ok(
                        TocV {
                            year: dec_val(t.subrange(0, 4)),
                            month: dec_val(t.subrange(5, 7)),
                            url: u,
                            mods_id: mods,
                        },
                    )
                }
            },
        }
    }
}

/// How the item list parses, left to right, first failure aborting the
/// whole listing.
pub open spec fn spec_parse_items_from(
    items: Seq<(Seq<char>, Option<Seq<char>>)>,
    i: int,
) -> Result<Seq<TocV>, IngestError>
    decreases items.len() - i,
{
    if i < 0 || i >= items.len() {
        Ok(Seq::empty())
    } else {
        match spec_parse_item(items[i].0, items[i].1, i) {
            Err(e) => Err(e),
            Ok(t) => match spec_parse_items_from(items, i + 1) {
                Err(e) => Err(e),
                Ok(ts) => Ok(seq![t] + ts),
            },
        }
    }
}

/// Parses one catalog item into an edition entry.
pub fn parse_catalog_item(text: &str, href: &Option<String>, item: usize) -> (r: Result<
    TableOfContent,
    IngestError,
>)
    ensures
        match spec_parse_item(text@, href.deep_view(), item as int) {
            Ok(t) => r matches Ok(v) && v@ == t,
            Err(e) => r == Err::<TableOfContent, IngestError>(e),
        },
{
    let t = trim_str(text);
    let n = t.as_str().unicode_len();
    if n < 4 {
        return Err(IngestError::ParseBadYear { item });
    }
    let year_val = match parse_digits_window(t.as_str(), 0, 4) {
        Option::Some(v) => v,
        Option::None => {
            return Err(IngestError::ParseBadYear { item });
        },
    };
    if n < 7 {
        return Err(IngestError::ParseBadMonth { item });
    }
    let month_val = match parse_digits_window(t.as_str(), 5, 7) {
        Option::Some(v) => v,
        Option::None => {
            return Err(IngestError::ParseBadMonth { item });
        },
    };
    proof {
        lemma_dec_val_bound(t@.subrange(0, 4));
        lemma_dec_val_bound(t@.subrange(5, 7));
        lemma_pow10_le_10000(4);
        lemma_pow10_le_10000(2);
    }
    match href {
        Option::None => Err(IngestError::ParseNoLink { item }),
        Option::Some(u) => {
            let mods = last_path_segment(u.as_str());
            if !str_has_prefix(mods.as_str(), "DEHeft_mods_") {
                return Err(IngestError::ParseBadEditionId { item });
            }
            Ok(
                TableOfContent {
                    year: year_val as i32,
                    month: month_val as i32,
                    url: u.clone(),
                    mods_id: mods,
                },
            )
        },
    }
}

/// Parses the catalog page into the list of available editions.
///
/// The listing is all-or-nothing: a malformed entry invalidates the run
/// with the matching parse error, and an absent list container fails with
/// [`IngestError::ParseNoContainer`].
pub fn get_table_of_contents(page: &str) -> (r: Result<Vec<TableOfContent>, IngestError>)
    ensures
        match catalog_list_items(page@) {
            Option::None => r == Err::<Vec<TableOfContent>, IngestError>(
                IngestError::ParseNoContainer,
            ),
            Option::Some(items) => match spec_parse_items_from(items, 0) {
                Ok(ts) => r matches Ok(v) && v.deep_view() == ts,
                Err(e) => r == Err::<Vec<TableOfContent>, IngestError>(e),
            },
        },
{
    let items = match scrape_catalog_items(page) {
        Option::None => {
            return Err(IngestError::ParseNoContainer);
        },
        Option::Some(items) => items,
    };
    let ghost gitems = items.deep_view();
    let mut out: Vec<TableOfContent> = Vec::new();
    let mut i: usize = 0;
    while i < items.len()
        invariant
            0 <= i <= items.len(),
            gitems == items.deep_view(),
            gitems.len() == items@.len(),
            catalog_list_items(page@) == Option::Some(gitems),
            spec_parse_items_from(gitems, 0) == (match spec_parse_items_from(gitems, i as int) {
                Err(e) => Err::<Seq<TocV>, IngestError>(e),
                Ok(ts) => Ok::<Seq<TocV>, IngestError>(out.deep_view() + ts),
            }),
        decreases items.len() - i,
    {
        let pair = &items[i];
        proof {
            assert(gitems[i as int] == (pair.0@, pair.1.deep_view()));
        }
        match parse_catalog_item(pair.0.as_str(), &pair.1, i) {
            Err(e) => {
                proof {
                    assert(spec_parse_item(gitems[i as int].0, gitems[i as int].1, i as int)
                        == Err::<TocV, IngestError>(e));
                    assert(spec_parse_items_from(gitems, i as int) == Err::<
                        Seq<TocV>,
                        IngestError,
                    >(e));
                }
                return Err(e);
            },
            Ok(v) => {
                let ghost old_out = out.deep_view();
                out.push(v);
                proof {
                    assert(out.deep_view() =~= old_out.push(v@));
                    match spec_parse_items_from(gitems, i + 1) {
                        Err(e) => {},
                        Ok(ts) => {
                            assert(old_out + (seq![v@] + ts) =~= out.deep_view() + ts);
                        },
                    }
                }
            },
        }
        i += 1;
    }
    proof {
        assert(spec_parse_items_from(gitems, i as int) == Ok::<Seq<TocV>, IngestError>(
            Seq::empty(),
        ));
        assert(out.deep_view() + Seq::<TocV>::empty() =~= out.deep_view());
    }
    Ok(out)
}

} // verus!
