use vstd::prelude::*;

verus! {

/// The German full month name that the persisted records carry in place of
/// the numeric month, for `m` between 1 and 12.
pub open spec fn month_name(m: int) -> Seq<char> {
    if m == 1 {
        "Januar"@
    } else if m == 2 {
        "Februar"@
    } else if m == 3 {
        "März"@
    } else if m == 4 {
        "April"@
    } else if m == 5 {
        "Mai"@
    } else if m == 6 {
        "Juni"@
    } else if m == 7 {
        "Juli"@
    } else if m == 8 {
        "August"@
    } else if m == 9 {
        "September"@
    } else if m == 10 {
        "Oktober"@
    } else if m == 11 {
        "November"@
    } else {
        "Dezember"@
    }
}

/// Translates a numeric month into the German month name under which the
/// store keys its records.  The translation is total on 1 to 12; any other
/// integer has no name and translating it is fatal, which here is the
/// precondition: no verified caller can reach that case, and the I/O
/// layer fails hard before calling.
pub fn translate_to_month(month: i32) -> (r: String)
    requires
        1 <= month <= 12,
    ensures
        r@ == month_name(month as int),
{
    let name: &str = if month == 1 {
        "Januar"
    } else if month == 2 {
        "Februar"
    } else if month == 3 {
        "März"
    } else if month == 4 {
        "April"
    } else if month == 5 {
        "Mai"
    } else if month == 6 {
        "Juni"
    } else if month == 7 {
        "Juli"
    } else if month == 8 {
        "August"
    } else if month == 9 {
        "September"
    } else if month == 10 {
        "Oktober"
    } else if month == 11 {
        "November"
    } else {
        "Dezember"
    };
    name.to_owned()
}

/// The translation is a bijection between 1 to 12 and the twelve German
/// month names: it is total on that range by [`translate_to_month`]'s
/// contract, and distinct months never share a name, so keying the store
/// by the name loses nothing.
pub proof fn lemma_month_name_injective(a: int, b: int)
    requires
        1 <= a <= 12,
        1 <= b <= 12,
        month_name(a) == month_name(b),
    ensures
        a == b,
{
    reveal_strlit("Januar");
    reveal_strlit("Februar");
    reveal_strlit("März");
    reveal_strlit("April");
    reveal_strlit("Mai");
    reveal_strlit("Juni");
    reveal_strlit("Juli");
    reveal_strlit("August");
    reveal_strlit("September");
    reveal_strlit("Oktober");
    reveal_strlit("November");
    reveal_strlit("Dezember");
    assert("Januar"@.len() == 6);
    assert("Februar"@.len() == 7);
    assert("März"@.len() == 4);
    assert("April"@.len() == 5);
    assert("Mai"@.len() == 3);
    assert("Juni"@.len() == 4);
    assert("Juli"@.len() == 4);
    assert("August"@.len() == 6);
    assert("September"@.len() == 9);
    assert("Oktober"@.len() == 7);
    assert("November"@.len() == 8);
    assert("Dezember"@.len() == 8);
    if a != b {
        if (a == 3 && b == 6) || (a == 6 && b == 3) {
            assert("März"@[0] != "Juni"@[0]);
        } else if (a == 3 && b == 7) || (a == 7 && b == 3) {
            assert("März"@[0] != "Juli"@[0]);
        } else if (a == 6 && b == 7) || (a == 7 && b == 6) {
            assert("Juni"@[2] != "Juli"@[2]);
        } else if (a == 1 && b == 8) || (a == 8 && b == 1) {
            assert("Januar"@[0] != "August"@[0]);
        } else if (a == 2 && b == 10) || (a == 10 && b == 2) {
            assert("Februar"@[0] != "Oktober"@[0]);
        } else if (a == 11 && b == 12) || (a == 12 && b == 11) {
            assert("November"@[0] != "Dezember"@[0]);
        }
    }
}

} // verus!
