//! Reference data for naming places: continents, countries and the tables of
//! administrative divisions, keyed by their codes.

use vstd::prelude::*;
use vstd::string::StringExecFns;
use crate::text::str_eq;

verus! {

/// `std::path::PathBuf`, a path: carried through as it is.
#[verifier::external_type_specification]
#[verifier::external_body]
pub struct ExPathBuf(std::path::PathBuf);

/// A continent, as the country list codes it.
#[derive(Debug, Copy, Clone, PartialEq, Eq, Hash, Structural)]
pub enum Continent {
    /// Code = AF
    Africa,
    /// Code = AS
    Asia,
    /// Code = EU
    Europe,
    /// Code = NA
    NorthAmerica,
    /// Code = OC
    Oceania,
    /// Code = SA
    SouthAmerica,
    /// Code = AN
    Antarctica,
}

impl Continent {
    /// The two-letter code of the continent.
    pub open spec fn code(self) -> Seq<char> {
        match self {
            Continent::Africa => "AF"@,
            Continent::Asia => "AS"@,
            Continent::Europe => "EU"@,
            Continent::NorthAmerica => "NA"@,
            Continent::Oceania => "OC"@,
            Continent::SouthAmerica => "SA"@,
            Continent::Antarctica => "AN"@,
        }
    }

    /// The continent with the given code, if it is the code of one.
    pub open spec fn with_code(code: Seq<char>) -> Option<Continent> {
        if code == "AF"@ {
            Some(Continent::Africa)
        } else if code == "AS"@ {
            Some(Continent::Asia)
        } else if code == "EU"@ {
            Some(Continent::Europe)
        } else if code == "NA"@ {
            Some(Continent::NorthAmerica)
        } else if code == "OC"@ {
            Some(Continent::Oceania)
        } else if code == "SA"@ {
            Some(Continent::SouthAmerica)
        } else if code == "AN"@ {
            Some(Continent::Antarctica)
        } else {
            None
        }
    }

    /// The two-letter code of the continent.
    pub fn as_str(&self) -> (code: &'static str)
        ensures
            code@ == self.code(),
    {
        match self {
            Continent::Africa => "AF",
            Continent::Asia => "AS",
            Continent::Europe => "EU",
            Continent::NorthAmerica => "NA",
            Continent::Oceania => "OC",
            Continent::SouthAmerica => "SA",
            Continent::Antarctica => "AN",
        }
    }

    /// The continent with the given two-letter code.
    pub fn from_code(value: &str) -> (continent: Option<Continent>)
        ensures
            continent == Continent::with_code(value@),
    {
        if str_eq(value, "AF") {
            Some(Continent::Africa)
        } else if str_eq(value, "AS") {
            Some(Continent::Asia)
        } else if str_eq(value, "EU") {
            Some(Continent::Europe)
        } else if str_eq(value, "NA") {
            Some(Continent::NorthAmerica)
        } else if str_eq(value, "OC") {
            Some(Continent::Oceania)
        } else if str_eq(value, "SA") {
            Some(Continent::SouthAmerica)
        } else if str_eq(value, "AN") {
            Some(Continent::Antarctica)
        } else {
            None
        }
    }
}

/// Represents a country as the country list gives it.
#[derive(Debug, Clone)]
pub struct Country {
    pub iso_code: String,
    pub name: String,
    pub continent: Continent,
}

/// A table from codes to values. A code entered again replaces what was
/// entered for it before.
#[derive(Debug)]
pub struct CodeTable<V> {
    entries: Vec<(String, V)>,
}

/// Index of the last of the first `n` entries that is keyed by `key`.
pub open spec fn last_entry<V>(entries: Seq<(String, V)>, key: Seq<char>, n: int) -> Option<int>
    decreases n,
{
    if n <= 0 {
        None
    } else if entries[n - 1].0@ == key {
        Some(n - 1)
    } else {
        last_entry(entries, key, n - 1)
    }
}

impl<V> CodeTable<V> {
    /// What has been entered, in the order of entry.
    pub closed spec fn entries(&self) -> Seq<(String, V)> {
        self.entries@
    }

    /// What the table holds for `key`.
    pub open spec fn lookup(&self, key: Seq<char>) -> Option<V> {
        match last_entry(self.entries(), key, self.entries().len() as int) {
            Some(i) => Some(self.entries()[i].1),
            None => None,
        }
    }

    /// An empty table.
    pub fn new() -> (table: Self)
        ensures
            table.entries() == Seq::<(String, V)>::empty(),
            forall|key: Seq<char>| table.lookup(key) is None,
    {
        CodeTable { entries: Vec::new() }
    }

    /// The number of entries made.
    pub fn len(&self) -> (n: usize)
        ensures
            n == self.entries().len(),
    {
        self.entries.len()
    }

    /// Enters `value` for `key`.
    pub fn insert(&mut self, key: String, value: V)
        ensures
            final(self).entries() == old(self).entries().push((key, value)),
            final(self).lookup(key@) == Some(value),
            forall|other: Seq<char>|
                other != key@ ==> final(self).lookup(other) == old(self).lookup(other),
    {
        let ghost before = self.entries@;
        self.entries.push((key, value));
        proof {
            let after = self.entries@;
            assert forall|other: Seq<char>| other != key@ implies self.lookup(other) == old(
                self,
            ).lookup(other) by {
                lemma_last_entry_prefix(before, after, other, before.len() as int);
                lemma_last_entry_bounds(before, other, before.len() as int);
            }
        }
    }

    /// Looks `key` up.
    pub fn get(&self, key: &str) -> (found: Option<&V>)
        ensures
            found matches Some(v) ==> self.lookup(key@) == Some(*v),
            found is None ==> self.lookup(key@) is None,
    {
        let mut i: usize = self.entries.len();
        while i > 0
            invariant
                i <= self.entries@.len(),
                last_entry(self.entries@, key@, self.entries@.len() as int) == last_entry(
                    self.entries@,
                    key@,
                    i as int,
                ),
            decreases i,
        {
            i -= 1;
            if str_eq(self.entries[i].0.as_str(), key) {
                return Some(&self.entries[i].1);
            }
        }
        None
    }
}

/// Two lists of entries that agree on their first `n` entries hold the same
/// for a key among these.
pub proof fn lemma_last_entry_prefix<V>(
    a: Seq<(String, V)>,
    b: Seq<(String, V)>,
    key: Seq<char>,
    n: int,
)
    requires
        n <= a.len(),
        n <= b.len(),
        forall|i: int| 0 <= i < n ==> a[i] == b[i],
    ensures
        last_entry(a, key, n) == last_entry(b, key, n),
    decreases n,
{
    if n > 0 {
        lemma_last_entry_prefix(a, b, key, n - 1);
    }
}

/// An entry found among the first `n` is one of them and is keyed by `key`.
pub proof fn lemma_last_entry_bounds<V>(entries: Seq<(String, V)>, key: Seq<char>, n: int)
    requires
        n <= entries.len(),
    ensures
        last_entry(entries, key, n) matches Some(i) ==> 0 <= i < n && entries[i].0@ == key,
        last_entry(entries, key, n) is None ==> forall|i: int|
            0 <= i < n ==> (#[trigger] entries[i]).0@ != key,
    decreases n,
{
    if n > 0 {
        lemma_last_entry_bounds(entries, key, n - 1);
    }
}

/// Given a two-letter ISO code, returns the country. The code for the United
/// Kingdom is "GB".
pub fn get_country<'a>(countries: &'a CodeTable<Country>, iso_code: &str) -> (country: Option<
    &'a Country,
>)
    ensures
        country matches Some(c) ==> countries.lookup(iso_code@) == Some(*c),
        country is None ==> countries.lookup(iso_code@) is None,
{
    countries.get(iso_code)
}

/// Given a key, returns the first-level country subdivision, for "GB.ENG"
/// "England". In the United States this would be a state.
pub fn get_admin1_code<'a>(codes: &'a CodeTable<String>, key: &str) -> (name: Option<&'a String>)
    ensures
        name matches Some(n) ==> codes.lookup(key@) == Some(*n),
        name is None ==> codes.lookup(key@) is None,
{
    codes.get(key)
}

/// Given a key, returns the second-level country subdivision, for
/// "GB.ENG.J9" "Nottinghamshire".
pub fn get_admin2_code<'a>(codes: &'a CodeTable<String>, key: &str) -> (name: Option<&'a String>)
    ensures
        name matches Some(n) ==> codes.lookup(key@) == Some(*n),
        name is None ==> codes.lookup(key@) is None,
{
    codes.get(key)
}

/// The country that a line of the country list makes, from three of its
/// fields. A line with one of them empty, or with a continent code that is
/// none, makes no country.
pub fn country_from_fields(iso_code: &str, name: &str, continent_code: &str) -> (country: Option<
    Country,
>)
    ensures
        country is Some <==> iso_code@.len() > 0 && name@.len() > 0 && Continent::with_code(
            continent_code@,
        ) is Some,
        country matches Some(c) ==> c.iso_code@ == iso_code@ && c.name@ == name@ && Some(
            c.continent,
        ) == Continent::with_code(continent_code@),
{
    if iso_code.is_empty() || name.is_empty() {
        return None;
    }
    match Continent::from_code(continent_code) {
        Some(continent) => Some(
            Country { iso_code: iso_code.to_owned(), name: name.to_owned(), continent },
        ),
        None => None,
    }
}

/// Represents a place as the gazetteer gives it.
#[derive(Debug, Clone)]
pub struct Place {
    pub name: String,
    /// Latitude, in units of 10^-7 degrees.
    pub lat: i64,
    /// Longitude, in units of 10^-7 degrees.
    pub lon: i64,
    pub iso_code: String,
    pub admin1: String,
    pub admin2: String,
}

/// The key of the second-level subdivision that a place lies in: its
/// country, its first-level and its second-level code with full stops
/// between them.
pub open spec fn admin2_key(iso_code: Seq<char>, admin1: Seq<char>, admin2: Seq<char>) -> Seq<
    char,
> {
    iso_code + "."@ + admin1 + "."@ + admin2
}

/// The description of a place: its name and the name of the subdivision
/// that it lies in, where the table holds that, and else its name alone.
pub open spec fn place_description(
    name: Seq<char>,
    iso_code: Seq<char>,
    admin1: Seq<char>,
    admin2: Seq<char>,
    codes: &CodeTable<String>,
) -> Seq<char> {
    match codes.lookup(admin2_key(iso_code, admin1, admin2)) {
        Some(division) => name + ", "@ + division@,
        None => name,
    }
}

/// Describes a place by its name and, where the table of second-level
/// subdivisions holds it, the name of the subdivision that it lies in.
pub fn describe_place(place: &Place, codes: &CodeTable<String>) -> (description: String)
    ensures
        description@ == place_description(
            place.name@,
            place.iso_code@,
            place.admin1@,
            place.admin2@,
            codes,
        ),
{
    let mut key: String = place.iso_code.clone();
    key.append(".");
    key.append(place.admin1.as_str());
    key.append(".");
    key.append(place.admin2.as_str());
    match get_admin2_code(codes, key.as_str()) {
        Some(code) => {
            let mut description: String = place.name.clone();
            description.append(", ");
            description.append(code.as_str());
            description
        },
        None => place.name.clone(),
    }
}

/// Where the reference data is kept and which countries it is wanted for.
#[derive(Debug, Clone)]
pub struct GeocodingOptions {
    pub download_folder: Option<std::path::PathBuf>,
    pub countries: Vec<String>,
    pub force_download: bool,
    /// Whether the download folder has been seen to exist.
    pub download_folder_exists: bool,
}

/// The path of `filename` in `folder`.
pub uninterp spec fn joined_path(
    folder: std::path::PathBuf,
    filename: Seq<char>,
) -> std::path::PathBuf;

/// `PathBuf::join`: the path of `filename` in `folder`. The contract gives
/// the result a name and claims no more.
#[verifier::external_body]
fn join_path(folder: &std::path::PathBuf, filename: &str) -> (path: std::path::PathBuf)
    ensures
        path == joined_path(*folder, filename@),
{
    folder.join(filename)
}

impl GeocodingOptions {
    /// Options for data kept in `download_folder`, which is not yet known to
    /// exist.
    pub fn new(
        download_folder: Option<std::path::PathBuf>,
        countries: Vec<String>,
        force_download: bool,
    ) -> (options: Self)
        ensures
            options.download_folder == download_folder,
            options.countries == countries,
            options.force_download == force_download,
            !options.download_folder_exists,
    {
        Self { download_folder, countries, force_download, download_folder_exists: false }
    }

    /// Names cannot be looked up: there is nowhere to keep the data, no
    /// country is wanted, or the folder could not be made.
    pub open spec fn spec_disable_geocoding(&self) -> bool {
        self.download_folder is None || self.countries@.len() == 0 || !self.download_folder_exists
    }

    /// Is `isocode` one of the countries wanted?
    pub open spec fn wants(&self, isocode: Seq<char>) -> bool {
        exists|i: int| 0 <= i < self.countries@.len() && (#[trigger] self.countries@[i])@ == isocode
    }

    /// Can names not be looked up?
    pub fn disable_geocoding(&self) -> (disabled: bool)
        ensures
            disabled == self.spec_disable_geocoding(),
    {
        self.download_folder.is_none() || self.countries.len() == 0 || !self.download_folder_exists
    }

    /// The path of `filename` in the download folder.
    pub fn get_output_path(&self, filename: &str) -> (path: std::path::PathBuf)
        requires
            self.download_folder is Some,
        ensures
            path == joined_path(self.download_folder->0, filename@),
    {
        join_path(self.download_folder.as_ref().unwrap(), filename)
    }

    /// Is `isocode` one of the countries wanted?
    pub fn include_country(&self, isocode: &str) -> (wanted: bool)
        ensures
            wanted == self.wants(isocode@),
    {
        let n: usize = self.countries.len();
        let mut i: usize = 0;
        while i < n
            invariant
                n == self.countries@.len(),
                i <= n,
                forall|j: int| 0 <= j < i ==> (#[trigger] self.countries@[j])@ != isocode@,
            decreases n - i,
        {
            if str_eq(self.countries[i].as_str(), isocode) {
                return true;
            }
            i += 1;
        }
        false
    }
}

} // verus!
