//! The search form of the parliamentary documentation system, through which
//! the proceedings behind an announcement are found.

use vstd::prelude::*;
use vstd::string::StringExecFns;
use crate::gazette::Gazette;
use crate::text::{decimal, integer_text, natural_text, signed_decimal};

verus! {

/// The fields of the search form, in the order in which the form lists them.
///
/// Three of them identify the announcement. The others are left at the
/// values the form has when nothing else is asked for; the server rejects a
/// query that leaves any of them out.
pub open spec fn query_fields(gazette: Seq<char>, year: Seq<char>, page: Seq<char>) -> Seq<
    (Seq<char>, Seq<char>),
> {
    seq![
        ("verkuendungsblatt"@, gazette),
        ("jahrgang"@, year),
        ("seite"@, page),
        ("drsId"@, ""@),
        ("plprId"@, ""@),
        ("aeDrsId"@, ""@),
        ("aePlprId"@, ""@),
        ("vorgangId"@, ""@),
        ("procedureContext"@, ""@),
        ("vpId"@, ""@),
        ("formChanged"@, "false"@),
        ("promptUser"@, "false"@),
        ("overrideChanged"@, "true"@),
        ("javascriptActive"@, "yes"@),
        ("personId"@, ""@),
        ("personNachname"@, ""@),
        ("prompt"@, "no"@),
        ("anchor"@, ""@),
        ("wahlperiodeaktualisiert"@, "false"@),
        ("wahlperiode"@, ""@),
        ("startDatum"@, ""@),
        ("endDatum"@, ""@),
        ("includeVorgangstyp"@, "UND"@),
        ("nummer"@, ""@),
        ("suchwort"@, ""@),
        ("suchwortUndSchlagwort"@, "ODER"@),
        ("schlagwort1"@, ""@),
        ("linkSchlagwort2"@, "UND"@),
        ("schlagwort2"@, ""@),
        ("linkSchlagwort3"@, "UND"@),
        ("schlagwort3"@, ""@),
        ("unterbegriffsTiefe"@, "0"@),
        ("sachgebiet"@, ""@),
        ("includeKu"@, "UND"@),
        ("ressort"@, ""@),
        ("nachname"@, ""@),
        ("vorname"@, ""@),
        ("heftnummer"@, ""@),
        ("verkuendungStartDatum"@, ""@),
        ("verkuendungEndDatum"@, ""@),
        ("btBrBeteiligung"@, "alle"@),
        ("gestaOrdnungsnummer"@, ""@),
        ("beratungsstand"@, ""@),
        ("signaturParlamentsarchiv"@, ""@),
        ("method"@, "Suchen"@),
    ]
}

/// What a list of borrowed name-value pairs says, as text.
pub open spec fn fields_view(fields: Seq<(&str, &str)>) -> Seq<(Seq<char>, Seq<char>)> {
    fields.map_values(|f: (&str, &str)| (f.0@, f.1@))
}

/// Prepare the query parameters as the search form expects them.
pub fn prepare_query<'a>(gazette: &'a str, year: &'a str, page: &'a str) -> (query: Vec<
    (&'a str, &'a str),
>)
    ensures
        fields_view(query@) == query_fields(gazette@, year@, page@),
{
    let query = vec![
        ("verkuendungsblatt", gazette),
        ("jahrgang", year),
        ("seite", page),
        ("drsId", ""),
        ("plprId", ""),
        ("aeDrsId", ""),
        ("aePlprId", ""),
        ("vorgangId", ""),
        ("procedureContext", ""),
        ("vpId", ""),
        ("formChanged", "false"),
        ("promptUser", "false"),
        ("overrideChanged", "true"),
        ("javascriptActive", "yes"),
        ("personId", ""),
        ("personNachname", ""),
        ("prompt", "no"),
        ("anchor", ""),
        ("wahlperiodeaktualisiert", "false"),
        ("wahlperiode", ""),
        ("startDatum", ""),
        ("endDatum", ""),
        ("includeVorgangstyp", "UND"),
        ("nummer", ""),
        ("suchwort", ""),
        ("suchwortUndSchlagwort", "ODER"),
        ("schlagwort1", ""),
        ("linkSchlagwort2", "UND"),
        ("schlagwort2", ""),
        ("linkSchlagwort3", "UND"),
        ("schlagwort3", ""),
        ("unterbegriffsTiefe", "0"),
        ("sachgebiet", ""),
        ("includeKu", "UND"),
        ("ressort", ""),
        ("nachname", ""),
        ("vorname", ""),
        ("heftnummer", ""),
        ("verkuendungStartDatum", ""),
        ("verkuendungEndDatum", ""),
        ("btBrBeteiligung", "alle"),
        ("gestaOrdnungsnummer", ""),
        ("beratungsstand", ""),
        ("signaturParlamentsarchiv", ""),
        ("method", "Suchen"),
    ];
    assert(fields_view(query@) =~= query_fields(gazette@, year@, page@));
    query
}

/// No field of the form occurs twice in a query: each name stands for one
/// value.
pub proof fn lemma_query_names_differ(gazette: Seq<char>, year: Seq<char>, page: Seq<char>)
    ensures
        forall|i: int, j: int|
            0 <= i < j < query_fields(gazette, year, page).len() ==> query_fields(
                gazette,
                year,
                page,
            )[i].0 != query_fields(gazette, year, page)[j].0,
{
    reveal_strlit("verkuendungsblatt");
    reveal_strlit("jahrgang");
    reveal_strlit("seite");
    reveal_strlit("drsId");
    reveal_strlit("plprId");
    reveal_strlit("aeDrsId");
    reveal_strlit("aePlprId");
    reveal_strlit("vorgangId");
    reveal_strlit("procedureContext");
    reveal_strlit("vpId");
    reveal_strlit("formChanged");
    reveal_strlit("promptUser");
    reveal_strlit("overrideChanged");
    reveal_strlit("javascriptActive");
    reveal_strlit("personId");
    reveal_strlit("personNachname");
    reveal_strlit("prompt");
    reveal_strlit("anchor");
    reveal_strlit("wahlperiodeaktualisiert");
    reveal_strlit("wahlperiode");
    reveal_strlit("startDatum");
    reveal_strlit("endDatum");
    reveal_strlit("includeVorgangstyp");
    reveal_strlit("nummer");
    reveal_strlit("suchwort");
    reveal_strlit("suchwortUndSchlagwort");
    reveal_strlit("schlagwort1");
    reveal_strlit("linkSchlagwort2");
    reveal_strlit("schlagwort2");
    reveal_strlit("linkSchlagwort3");
    reveal_strlit("schlagwort3");
    reveal_strlit("unterbegriffsTiefe");
    reveal_strlit("sachgebiet");
    reveal_strlit("includeKu");
    reveal_strlit("ressort");
    reveal_strlit("nachname");
    reveal_strlit("vorname");
    reveal_strlit("heftnummer");
    reveal_strlit("verkuendungStartDatum");
    reveal_strlit("verkuendungEndDatum");
    reveal_strlit("btBrBeteiligung");
    reveal_strlit("gestaOrdnungsnummer");
    reveal_strlit("beratungsstand");
    reveal_strlit("signaturParlamentsarchiv");
    reveal_strlit("method");
    let fields = query_fields(gazette, year, page);
    assert forall|i: int, j: int| 0 <= i < j < fields.len() implies fields[i].0 != fields[j].0 by {
        let a = fields[i].0;
        let b = fields[j].0;
        if a.len() == b.len() {
            assert(a[0] != b[0] || a[1] != b[1] || a[2] != b[2] || a[3] != b[3] || a[a.len() - 1]
                != b[b.len() - 1] || a[a.len() - 2] != b[b.len() - 2]);
        }
    }
}

/// What a list of name-value pairs says, as text.
pub open spec fn owned_fields_view(fields: Seq<(String, String)>) -> Seq<(Seq<char>, Seq<char>)> {
    fields.map_values(|f: (String, String)| (f.0@, f.1@))
}

/// The query that asks for the proceedings behind an announcement: the form
/// filled in with the gazette's part, the year and the page, both in decimal.
pub fn proceedings_query(gazette: &Gazette) -> (query: Vec<(String, String)>)
    ensures
        owned_fields_view(query@) == query_fields(
            gazette.spec_series_name(),
            integer_text(gazette.spec_year() as int),
            natural_text(gazette.spec_page() as nat),
        ),
{
    let year = signed_decimal(gazette.year());
    let page = decimal(gazette.page());
    let fields = prepare_query(gazette.series_name(), year.as_str(), page.as_str());
    let ghost wanted = fields_view(fields@);
    let mut query: Vec<(String, String)> = Vec::new();
    let mut i: usize = 0;
    while i < fields.len()
        invariant
            i <= fields.len(),
            wanted == fields_view(fields@),
            owned_fields_view(query@) =~= wanted.take(i as int),
        decreases fields.len() - i,
    {
        let (name, value) = fields[i];
        let ghost before = owned_fields_view(query@);
        query.push((String::from_str(name), String::from_str(value)));
        assert(owned_fields_view(query@) =~= before.push((name@, value@)));
        assert(wanted.take(i + 1) =~= wanted.take(i as int).push(wanted[i as int]));
        i += 1;
    }
    assert(wanted.take(i as int) =~= wanted);
    query
}

} // verus!
