//! The writer: from the track model to the text of a document.
//!
//! Every function adds to the text that has been written so far, and says
//! what it adds by a function from the text so far to the text after it.

use vstd::prelude::*;
use vstd::string::StringExecFns;
use crate::dates::{format_utc_date, rfc3339_text};
use crate::error::{Failure, GapixError};
use crate::model::{
    link_views, route_views, text_of, track_segment_views, track_views, waypoint_views, Copyright,
    CopyrightView, Email, EmailView, Extensions, ExtensionsView, Gpx, GpxView, Link, LinkView,
    Metadata, MetadataView, Person, PersonView, Route, RouteView, Track, TrackSegment,
    TrackSegmentView, TrackView, Waypoint, WaypointView, XmlDeclaration, XmlDeclarationView,
};
use crate::read::bounds::DEGREE_PLACES;
use crate::text::{
    decimal_text, fixed_text, format_decimal, format_fixed, format_integer, integer_text,
};
use crate::xml::{attribute_views, AttributeView};

verus! {

/// Controls what values get written when writing a file.
#[derive(Debug, Copy, Clone, PartialEq, Eq, Structural)]
pub enum OutputOptions {
    /// Writes all the detail that exists in the model.
    Full,
    /// Writes just enough data to be a valid Audax UK DIY submission. This
    /// leaves out the waypoints, routes and extensions of the file, and the
    /// points of tracks get the least that is required of them instead of
    /// full detail. Most other things, such as the metadata, are fully
    /// written because they are a small part of the file, whose size is
    /// dominated by track points.
    AudaxUKDIY,
}

impl Default for OutputOptions {
    /// Returns `OutputOptions::Full`.
    fn default() -> (options: Self)
        ensures
            options == OutputOptions::Full,
    {
        Self::Full
    }
}

/// The number of decimal places to which every quantity but latitudes and
/// longitudes is kept.
pub const PLACES: u32 = 3;

/// The text `acc` followed by the indentation of `level` levels.
pub open spec fn indented(acc: Seq<char>, level: nat) -> Seq<char>
    decreases level,
{
    if level == 0 {
        acc
    } else {
        indented(acc, (level - 1) as nat) + "  "@
    }
}

/// The text `acc` followed by the start tag of an element on a line of its
/// own.
pub open spec fn with_open(acc: Seq<char>, level: nat, tag: Seq<char>) -> Seq<char> {
    indented(acc, level) + "<"@ + tag + ">\n"@
}

/// The text `acc` followed by the end tag of an element on a line of its
/// own.
pub open spec fn with_close(acc: Seq<char>, level: nat, tag: Seq<char>) -> Seq<char> {
    indented(acc, level) + "</"@ + tag + ">\n"@
}

/// The text `acc` followed by an element that holds text, on one line.
pub open spec fn with_element(
    acc: Seq<char>,
    level: nat,
    tag: Seq<char>,
    content: Seq<char>,
) -> Seq<
    char,
> {
    indented(acc, level) + "<"@ + tag + ">"@ + content + "</"@ + tag + ">\n"@
}

/// The text `acc` followed by an element that holds text, where there is
/// text to hold.
pub open spec fn with_optional(
    acc: Seq<char>,
    level: nat,
    tag: Seq<char>,
    content: Option<Seq<char>>,
) -> Seq<char> {
    match content {
        Some(c) => with_element(acc, level, tag, c),
        None => acc,
    }
}

/// A number that may be missing, as a decimal number at `scale` places.
pub open spec fn decimal_of(value: Option<i64>, scale: nat) -> Option<Seq<char>> {
    match value {
        Some(v) => Some(decimal_text(v as int, scale)),
        None => None,
    }
}

/// Writes the indentation of `level` levels.
fn write_indent(w: &mut String, level: usize)
    ensures
        final(w)@ == indented(old(w)@, level as nat),
{
    let mut i: usize = 0;
    while i < level
        invariant
            i <= level,
            w@ == indented(old(w)@, i as nat),
        decreases level - i,
    {
        w.append("  ");
        i += 1;
    }
}

/// Writes the start tag of an element on a line of its own.
fn write_open(w: &mut String, level: usize, tag: &str)
    ensures
        final(w)@ == with_open(old(w)@, level as nat, tag@),
{
    write_indent(w, level);
    w.append("<");
    w.append(tag);
    w.append(">\n");
}

/// Writes the end tag of an element on a line of its own.
fn write_close(w: &mut String, level: usize, tag: &str)
    ensures
        final(w)@ == with_close(old(w)@, level as nat, tag@),
{
    write_indent(w, level);
    w.append("</");
    w.append(tag);
    w.append(">\n");
}

/// Writes an element that holds text.
fn write_element(w: &mut String, level: usize, tag: &str, content: &str)
    ensures
        final(w)@ == with_element(old(w)@, level as nat, tag@, content@),
{
    write_indent(w, level);
    w.append("<");
    w.append(tag);
    w.append(">");
    w.append(content);
    w.append("</");
    w.append(tag);
    w.append(">\n");
}

/// Writes an element that holds text, where there is text to hold.
fn write_optional(w: &mut String, level: usize, tag: &str, content: &Option<String>)
    ensures
        final(w)@ == with_optional(old(w)@, level as nat, tag@, text_of(*content)),
{
    match content {
        Some(c) => write_element(w, level, tag, c.as_str()),
        None => {},
    }
}

/// Writes an element that holds a decimal number, where there is one.
fn write_decimal(w: &mut String, level: usize, tag: &str, value: Option<i64>, scale: u32)
    requires
        scale <= 18,
    ensures
        final(w)@ == with_optional(old(w)@, level as nat, tag@, decimal_of(value, scale as nat)),
{
    match value {
        Some(v) => write_element(w, level, tag, format_decimal(v, scale).as_str()),
        None => {},
    }
}

/// The text `acc` followed by an element that holds an instant, where there
/// is one that the calendar reaches.
pub open spec fn with_time(acc: Seq<char>, level: nat, time: Option<i64>) -> Result<
    Seq<char>,
    Failure,
> {
    match time {
        None => Ok(acc),
        Some(t) => match rfc3339_text(t) {
            Some(text) => Ok(with_element(acc, level, "time"@, text)),
            None => Err(Failure::DateFormatFailure("instant out of range"@)),
        },
    }
}

/// Writes an element that holds an instant, where there is one.
fn write_time(w: &mut String, level: usize, time: Option<i64>) -> (done: Result<(), GapixError>)
    ensures
        done is Ok ==> with_time(old(w)@, level as nat, time) == Ok::<Seq<char>, Failure>(
            final(w)@,
        ),
        done matches Err(e) ==> with_time(old(w)@, level as nat, time) == Err::<
            Seq<char>,
            Failure,
        >(e@),
{
    match time {
        None => Ok(()),
        Some(t) => {
            let text: String = format_utc_date(t)?;
            write_element(w, level, "time", text.as_str());
            Ok(())
        },
    }
}

/// The text `acc` followed by the declaration of a document.
pub open spec fn with_declaration(acc: Seq<char>, declaration: XmlDeclarationView) -> Seq<char> {
    let versioned = acc + "<?xml version=\""@ + declaration.version + "\""@;
    let encoded = match declaration.encoding {
        Some(e) => versioned + " encoding=\""@ + e + "\""@,
        None => versioned,
    };
    let standing = match declaration.standalone {
        Some(s) => encoded + " standalone=\""@ + s + "\""@,
        None => encoded,
    };
    standing + "?>\n"@
}

/// Writes the declaration of a document.
pub fn write_declaration(w: &mut String, declaration: &XmlDeclaration)
    ensures
        final(w)@ == with_declaration(old(w)@, declaration@),
{
    w.append("<?xml version=\"");
    w.append(declaration.version.as_str());
    w.append("\"");
    match &declaration.encoding {
        Some(encoding) => {
            w.append(" encoding=\"");
            w.append(encoding.as_str());
            w.append("\"");
        },
        None => {},
    }
    match &declaration.standalone {
        Some(standalone) => {
            w.append(" standalone=\"");
            w.append(standalone.as_str());
            w.append("\"");
        },
        None => {},
    }
    w.append("?>\n");
}

/// The text `acc` followed by the first `n` attributes, each on a line of
/// its own.
pub open spec fn with_attributes(acc: Seq<char>, attributes: Seq<AttributeView>, n: int) -> Seq<
    char,
>
    decreases n,
{
    if n <= 0 {
        acc
    } else {
        with_attributes(acc, attributes, n - 1) + "  "@ + attributes[n - 1].name + "=\""@
            + attributes[n - 1].value + "\"\n"@
    }
}

/// The text `acc` followed by the start tag of the root, with the creator,
/// the version and the other attributes of the file.
pub open spec fn with_gpx_open(acc: Seq<char>, gpx: GpxView) -> Seq<char> {
    with_attributes(
        acc + "<gpx creator=\""@ + gpx.creator + "\" version=\""@ + gpx.version + "\"\n"@,
        gpx.attributes,
        gpx.attributes.len() as int,
    ) + ">\n"@
}

/// Writes the start tag of the root.
pub fn write_gpx_open(w: &mut String, info: &Gpx)
    ensures
        final(w)@ == with_gpx_open(old(w)@, info@),
{
    w.append("<gpx creator=\"");
    w.append(info.creator.as_str());
    w.append("\" version=\"");
    w.append(info.version.as_str());
    w.append("\"\n");
    let ghost begun = w@;
    let n: usize = info.attributes.len();
    let mut i: usize = 0;
    while i < n
        invariant
            n == info.attributes@.len(),
            i <= n,
            w@ == with_attributes(begun, attribute_views(info.attributes@), i as int),
        decreases n - i,
    {
        w.append("  ");
        w.append(info.attributes[i].name.as_str());
        w.append("=\"");
        w.append(info.attributes[i].value.as_str());
        w.append("\"\n");
        i += 1;
    }
    w.append(">\n");
}

/// The text `acc` followed by the extensions of an element, where it has
/// any, as they were written.
pub open spec fn with_extensions(
    acc: Seq<char>,
    level: nat,
    extensions: Option<ExtensionsView>,
) -> Seq<
    char,
> {
    match extensions {
        Some(ext) => with_element(acc, level, "extensions"@, ext.raw_xml),
        None => acc,
    }
}

/// Writes the extensions of an element.
pub fn write_extensions(w: &mut String, level: usize, extensions: &Option<Extensions>)
    ensures
        final(w)@ == with_extensions(
            old(w)@,
            level as nat,
            match *extensions {
                Some(e) => Some(e@),
                None => None,
            },
        ),
{
    match extensions {
        Some(ext) => write_element(w, level, "extensions", ext.raw_xml.as_str()),
        None => {},
    }
}

/// The text `acc` followed by an e-mail address.
pub open spec fn with_email(acc: Seq<char>, level: nat, email: EmailView) -> Seq<char> {
    indented(acc, level) + "<email id=\""@ + email.id + "\" domain=\""@ + email.domain
        + "\" />\n"@
}

/// Writes an e-mail address.
pub fn write_email(w: &mut String, level: usize, email: &Email)
    ensures
        final(w)@ == with_email(old(w)@, level as nat, email@),
{
    write_indent(w, level);
    w.append("<email id=\"");
    w.append(email.id.as_str());
    w.append("\" domain=\"");
    w.append(email.domain.as_str());
    w.append("\" />\n");
}

/// The text `acc` followed by a link.
pub open spec fn with_link(acc: Seq<char>, level: nat, link: LinkView) -> Seq<char> {
    let opened = indented(acc, level) + "<link href=\""@ + link.href + "\">\n"@;
    let texted = with_optional(opened, level + 1, "text"@, link.text);
    let typed = with_optional(texted, level + 1, "type"@, link.type_);
    with_close(typed, level, "link"@)
}

/// Writes a link.
pub fn write_link(w: &mut String, level: usize, link: &Link)
    requires
        level < usize::MAX,
    ensures
        final(w)@ == with_link(old(w)@, level as nat, link@),
{
    write_indent(w, level);
    w.append("<link href=\"");
    w.append(link.href.as_str());
    w.append("\">\n");
    write_optional(w, level + 1, "text", &link.text);
    write_optional(w, level + 1, "type", &link.type_);
    write_close(w, level, "link");
}

/// The text `acc` followed by the first `n` links.
pub open spec fn with_links(acc: Seq<char>, level: nat, links: Seq<LinkView>, n: int) -> Seq<char>
    decreases n,
{
    if n <= 0 {
        acc
    } else {
        with_link(with_links(acc, level, links, n - 1), level, links[n - 1])
    }
}

/// Writes links one after the other.
fn write_links(w: &mut String, level: usize, links: &Vec<Link>)
    requires
        level < usize::MAX,
    ensures
        final(w)@ == with_links(old(w)@, level as nat, link_views(links@), links@.len() as int),
{
    let n: usize = links.len();
    let mut i: usize = 0;
    while i < n
        invariant
            n == links@.len(),
            i <= n,
            level < usize::MAX,
            w@ == with_links(old(w)@, level as nat, link_views(links@), i as int),
        decreases n - i,
    {
        write_link(w, level, &links[i]);
        i += 1;
    }
}

/// The text `acc` followed by a person, in an element named `tag`.
pub open spec fn with_person(acc: Seq<char>, level: nat, person: PersonView, tag: Seq<char>) -> Seq<
    char,
> {
    let opened = with_open(acc, level, tag);
    let named = with_optional(opened, level + 1, "name"@, person.name);
    let mailed = match person.email {
        Some(e) => with_email(named, level + 1, e),
        None => named,
    };
    let linked = match person.link {
        Some(l) => with_link(mailed, level + 1, l),
        None => mailed,
    };
    with_close(linked, level, tag)
}

/// Writes a person.
pub fn write_person(w: &mut String, level: usize, person: &Person, element_name: &str)
    requires
        level < usize::MAX - 1,
    ensures
        final(w)@ == with_person(old(w)@, level as nat, person@, element_name@),
{
    write_open(w, level, element_name);
    write_optional(w, level + 1, "name", &person.name);
    match &person.email {
        Some(email) => write_email(w, level + 1, email),
        None => {},
    }
    match &person.link {
        Some(link) => write_link(w, level + 1, link),
        None => {},
    }
    write_close(w, level, element_name);
}

/// A year that may be missing, as text.
pub open spec fn year_of(year: Option<i16>) -> Option<Seq<char>> {
    match year {
        Some(y) => Some(integer_text(y as int)),
        None => None,
    }
}

/// The text `acc` followed by a copyright notice.
pub open spec fn with_copyright(acc: Seq<char>, level: nat, copyright: CopyrightView) -> Seq<char> {
    let opened = with_open(acc, level, "copyright"@);
    let dated = with_optional(opened, level + 1, "year"@, year_of(copyright.year));
    let licensed = with_optional(dated, level + 1, "license"@, copyright.license);
    let authored = with_element(licensed, level + 1, "author"@, copyright.author);
    with_close(authored, level, "copyright"@)
}

/// Writes a copyright notice.
pub fn write_copyright(w: &mut String, level: usize, copyright: &Copyright)
    requires
        level < usize::MAX,
    ensures
        final(w)@ == with_copyright(old(w)@, level as nat, copyright@),
{
    write_open(w, level, "copyright");
    match copyright.year {
        Some(year) => write_element(w, level + 1, "year", format_integer(year as i64).as_str()),
        None => {},
    }
    write_optional(w, level + 1, "license", &copyright.license);
    write_element(w, level + 1, "author", copyright.author.as_str());
    write_close(w, level, "copyright");
}

/// The text `acc` followed by the bounds of a file, where it has any.
pub open spec fn with_bounds(
    acc: Seq<char>,
    level: nat,
    bounds: Option<crate::model::Bounds>,
) -> Seq<
    char,
> {
    match bounds {
        Some(b) => indented(acc, level) + "<bounds minlat=\""@ + decimal_text(
            b.min_lat as int,
            DEGREE_PLACES as nat,
        ) + "\" maxlat=\""@ + decimal_text(b.max_lat as int, DEGREE_PLACES as nat)
            + "\" minlon=\""@ + decimal_text(b.min_lon as int, DEGREE_PLACES as nat)
            + "\" maxlon=\""@ + decimal_text(b.max_lon as int, DEGREE_PLACES as nat) + "\"/>\n"@,
        None => acc,
    }
}

/// Writes the bounds of a file.
fn write_bounds(w: &mut String, level: usize, bounds: &Option<crate::model::Bounds>)
    ensures
        final(w)@ == with_bounds(old(w)@, level as nat, *bounds),
{
    match bounds {
        Some(b) => {
            write_indent(w, level);
            w.append("<bounds minlat=\"");
            w.append(format_decimal(b.min_lat, DEGREE_PLACES).as_str());
            w.append("\" maxlat=\"");
            w.append(format_decimal(b.max_lat, DEGREE_PLACES).as_str());
            w.append("\" minlon=\"");
            w.append(format_decimal(b.min_lon, DEGREE_PLACES).as_str());
            w.append("\" maxlon=\"");
            w.append(format_decimal(b.max_lon, DEGREE_PLACES).as_str());
            w.append("\"/>\n");
        },
        None => {},
    }
}

/// The text `acc` followed by the metadata of a file.
pub open spec fn with_metadata(acc: Seq<char>, level: nat, metadata: MetadataView) -> Result<
    Seq<char>,
    Failure,
> {
    let opened = with_open(acc, level, "metadata"@);
    let named = with_optional(opened, level + 1, "name"@, metadata.name);
    let described = with_optional(named, level + 1, "desc"@, metadata.description);
    let authored = match metadata.author {
        Some(a) => with_person(described, level + 1, a, "author"@),
        None => described,
    };
    let righted = match metadata.copyright {
        Some(c) => with_copyright(authored, level + 1, c),
        None => authored,
    };
    let linked = with_links(righted, level + 1, metadata.links, metadata.links.len() as int);
    match with_time(linked, level + 1, metadata.time) {
        Err(f) => Err(f),
        Ok(timed) => {
            let worded = with_optional(timed, level + 1, "keywords"@, metadata.keywords);
            let bounded = with_bounds(worded, level + 1, metadata.bounds);
            let extended = with_extensions(bounded, level + 1, metadata.extensions);
            Ok(with_close(extended, level, "metadata"@))
        },
    }
}

/// Writes the metadata of a file.
pub fn write_metadata(w: &mut String, level: usize, metadata: &Metadata) -> (done: Result<
    (),
    GapixError,
>)
    requires
        level < usize::MAX - 2,
    ensures
        done is Ok ==> with_metadata(old(w)@, level as nat, metadata@) == Ok::<Seq<char>, Failure>(
            final(w)@,
        ),
        done matches Err(e) ==> with_metadata(old(w)@, level as nat, metadata@) == Err::<
            Seq<char>,
            Failure,
        >(e@),
{
    write_open(w, level, "metadata");
    write_optional(w, level + 1, "name", &metadata.name);
    write_optional(w, level + 1, "desc", &metadata.description);
    match &metadata.author {
        Some(author) => write_person(w, level + 1, author, "author"),
        None => {},
    }
    match &metadata.copyright {
        Some(copyright) => write_copyright(w, level + 1, copyright),
        None => {},
    }
    write_links(w, level + 1, &metadata.links);
    write_time(w, level + 1, metadata.time)?;
    write_optional(w, level + 1, "keywords", &metadata.keywords);
    write_bounds(w, level + 1, &metadata.bounds);
    write_extensions(w, level + 1, &metadata.extensions);
    write_close(w, level, "metadata");
    Ok(())
}

/// A count that may be missing, as text.
pub open spec fn count_of(count: Option<int>) -> Option<Seq<char>> {
    match count {
        Some(c) => Some(integer_text(c)),
        None => None,
    }
}

/// The text `acc` followed by the start tag of a point, with its latitude
/// and its longitude as the texts `lat` and `lon`.
pub open spec fn with_point_open(
    acc: Seq<char>,
    level: nat,
    tag: Seq<char>,
    lat: Seq<char>,
    lon: Seq<char>,
) -> Seq<char> {
    indented(acc, level) + "<"@ + tag + " lat=\""@ + lat + "\" lon=\""@ + lon + "\">\n"@
}

/// The text `acc` followed by a point with the least that a submission
/// requires: its position to six places, its elevation to one, and its
/// time.
pub open spec fn with_brief_waypoint(
    acc: Seq<char>,
    level: nat,
    point: WaypointView,
    tag: Seq<char>,
) -> Result<
    Seq<char>,
    Failure,
> {
    let opened = with_point_open(
        acc,
        level,
        tag,
        fixed_text(point.lat as int, DEGREE_PLACES as nat, 6),
        fixed_text(point.lon as int, DEGREE_PLACES as nat, 6),
    );
    let raised = match point.ele {
        Some(e) => with_element(opened, level + 1, "ele"@, fixed_text(e as int, PLACES as nat, 1)),
        None => opened,
    };
    match with_time(raised, level + 1, point.time) {
        Err(f) => Err(f),
        Ok(timed) => Ok(with_close(timed, level, tag)),
    }
}

/// The text `acc` followed by a point in full detail.
pub open spec fn with_full_waypoint(
    acc: Seq<char>,
    level: nat,
    point: WaypointView,
    tag: Seq<char>,
) -> Result<
    Seq<char>,
    Failure,
> {
    let inner = level + 1;
    let places = PLACES as nat;
    let opened = with_point_open(
        acc,
        level,
        tag,
        decimal_text(point.lat as int, DEGREE_PLACES as nat),
        decimal_text(point.lon as int, DEGREE_PLACES as nat),
    );
    let raised = with_optional(opened, inner, "ele"@, decimal_of(point.ele, places));
    match with_time(raised, inner, point.time) {
        Err(f) => Err(f),
        Ok(timed) => {
            let varied = with_optional(timed, inner, "magvar"@, decimal_of(point.magvar, places));
            let geoid = with_optional(
                varied,
                inner,
                "geoidheight"@,
                decimal_of(point.geoid_height, places),
            );
            let named = with_optional(geoid, inner, "name"@, point.name);
            let commented = with_optional(named, inner, "cmt"@, point.comment);
            let described = with_optional(commented, inner, "desc"@, point.description);
            let sourced = with_optional(described, inner, "src"@, point.source);
            let linked = with_links(sourced, inner, point.links, point.links.len() as int);
            let marked = with_optional(linked, inner, "sym"@, point.symbol);
            let typed = with_optional(marked, inner, "type"@, point.type_);
            let fixed = with_optional(
                typed,
                inner,
                "fix"@,
                match point.fix {
                    Some(f) => Some(f.word()),
                    None => None,
                },
            );
            let counted = with_optional(
                fixed,
                inner,
                "sat"@,
                count_of(
                    match point.num_satellites {
                        Some(n) => Some(n as int),
                        None => None,
                    },
                ),
            );
            let h = with_optional(counted, inner, "hdop"@, decimal_of(point.hdop, places));
            let v = with_optional(h, inner, "vdop"@, decimal_of(point.vdop, places));
            let p = with_optional(v, inner, "pdop"@, decimal_of(point.pdop, places));
            let aged = with_optional(
                p,
                inner,
                "ageofdgpsdata"@,
                decimal_of(point.age_of_dgps_data, places),
            );
            let stationed = with_optional(
                aged,
                inner,
                "dgpsid"@,
                count_of(
                    match point.dgps_id {
                        Some(n) => Some(n as int),
                        None => None,
                    },
                ),
            );
            let extended = with_extensions(stationed, inner, point.extensions);
            Ok(with_close(extended, level, tag))
        },
    }
}

/// The text `acc` followed by a point, in an element named `tag`, with the
/// detail that the options ask for.
pub open spec fn with_waypoint(
    acc: Seq<char>,
    level: nat,
    point: WaypointView,
    tag: Seq<char>,
    options: OutputOptions,
) -> Result<Seq<char>, Failure> {
    match options {
        OutputOptions::AudaxUKDIY => with_brief_waypoint(acc, level, point, tag),
        OutputOptions::Full => with_full_waypoint(acc, level, point, tag),
    }
}

/// Writes the start tag of a point.
fn write_point_open(w: &mut String, level: usize, tag: &str, lat: &str, lon: &str)
    ensures
        final(w)@ == with_point_open(old(w)@, level as nat, tag@, lat@, lon@),
{
    write_indent(w, level);
    w.append("<");
    w.append(tag);
    w.append(" lat=\"");
    w.append(lat);
    w.append("\" lon=\"");
    w.append(lon);
    w.append("\">\n");
}

/// Writes an element that holds a count, where there is one.
fn write_count(w: &mut String, level: usize, tag: &str, count: Option<u16>)
    ensures
        final(w)@ == with_optional(
            old(w)@,
            level as nat,
            tag@,
            count_of(
                match count {
                    Some(n) => Some(n as int),
                    None => None,
                },
            ),
        ),
{
    match count {
        Some(n) => write_element(w, level, tag, format_integer(n as i64).as_str()),
        None => {},
    }
}

/// Writes a point.
pub fn write_waypoint(
    w: &mut String,
    level: usize,
    point: &Waypoint,
    element_name: &str,
    output_options: OutputOptions,
) -> (done: Result<(), GapixError>)
    requires
        level < usize::MAX - 1,
    ensures
        done is Ok ==> with_waypoint(old(w)@, level as nat, point@, element_name@, output_options)
            == Ok::<Seq<char>, Failure>(final(w)@),
        done matches Err(e) ==> with_waypoint(
            old(w)@,
            level as nat,
            point@,
            element_name@,
            output_options,
        ) == Err::<Seq<char>, Failure>(e@),
{
    let inner: usize = level + 1;
    match output_options {
        OutputOptions::AudaxUKDIY => {
            write_point_open(
                w,
                level,
                element_name,
                format_fixed(point.lat, DEGREE_PLACES, 6).as_str(),
                format_fixed(point.lon, DEGREE_PLACES, 6).as_str(),
            );
            match point.ele {
                Some(ele) => write_element(w, inner, "ele", format_fixed(ele, PLACES, 1).as_str()),
                None => {},
            }
            write_time(w, inner, point.time)?;
            write_close(w, level, element_name);
            return Ok(());
        },
        OutputOptions::Full => {},
    }
    write_point_open(
        w,
        level,
        element_name,
        format_decimal(point.lat, DEGREE_PLACES).as_str(),
        format_decimal(point.lon, DEGREE_PLACES).as_str(),
    );
    write_decimal(w, inner, "ele", point.ele, PLACES);
    write_time(w, inner, point.time)?;
    write_decimal(w, inner, "magvar", point.magvar, PLACES);
    write_decimal(w, inner, "geoidheight", point.geoid_height, PLACES);
    write_optional(w, inner, "name", &point.name);
    write_optional(w, inner, "cmt", &point.comment);
    write_optional(w, inner, "desc", &point.description);
    write_optional(w, inner, "src", &point.source);
    write_links(w, inner, &point.links);
    write_optional(w, inner, "sym", &point.symbol);
    write_optional(w, inner, "type", &point.type_);
    match point.fix {
        Some(fix) => write_element(w, inner, "fix", fix.as_str()),
        None => {},
    }
    write_count(w, inner, "sat", point.num_satellites);
    write_decimal(w, inner, "hdop", point.hdop, PLACES);
    write_decimal(w, inner, "vdop", point.vdop, PLACES);
    write_decimal(w, inner, "pdop", point.pdop, PLACES);
    write_decimal(w, inner, "ageofdgpsdata", point.age_of_dgps_data, PLACES);
    write_count(w, inner, "dgpsid", point.dgps_id);
    write_extensions(w, inner, &point.extensions);
    write_close(w, level, element_name);
    Ok(())
}

/// The text `acc` followed by the first `n` points, each in an element
/// named `tag`.
pub open spec fn with_waypoints(
    acc: Seq<char>,
    level: nat,
    points: Seq<WaypointView>,
    n: int,
    tag: Seq<char>,
    options: OutputOptions,
) -> Result<Seq<char>, Failure>
    decreases n,
{
    if n <= 0 {
        Ok(acc)
    } else {
        match with_waypoints(acc, level, points, n - 1, tag, options) {
            Err(f) => Err(f),
            Ok(written) => with_waypoint(written, level, points[n - 1], tag, options),
        }
    }
}

/// Writes points one after the other.
fn write_waypoints(
    w: &mut String,
    level: usize,
    points: &Vec<Waypoint>,
    element_name: &str,
    output_options: OutputOptions,
) -> (done: Result<(), GapixError>)
    requires
        level < usize::MAX - 1,
    ensures
        done is Ok ==> with_waypoints(
            old(w)@,
            level as nat,
            waypoint_views(points@),
            points@.len() as int,
            element_name@,
            output_options,
        ) == Ok::<Seq<char>, Failure>(final(w)@),
        done matches Err(e) ==> with_waypoints(
            old(w)@,
            level as nat,
            waypoint_views(points@),
            points@.len() as int,
            element_name@,
            output_options,
        ) == Err::<Seq<char>, Failure>(e@),
{
    let n: usize = points.len();
    let mut i: usize = 0;
    while i < n
        invariant
            n == points@.len(),
            i <= n,
            level < usize::MAX - 1,
            with_waypoints(
                old(w)@,
                level as nat,
                waypoint_views(points@),
                i as int,
                element_name@,
                output_options,
            ) == Ok::<Seq<char>, Failure>(w@),
        decreases n - i,
    {
        match write_waypoint(w, level, &points[i], element_name, output_options) {
            Ok(()) => {},
            Err(e) => {
                proof {
                    lemma_waypoints_failure_lasts(
                        old(w)@,
                        level as nat,
                        waypoint_views(points@),
                        i + 1,
                        n as int,
                        element_name@,
                        output_options,
                    );
                }
                return Err(e);
            },
        }
        i += 1;
    }
    Ok(())
}

/// Once a point has made writing fail, the points after it change nothing.
pub proof fn lemma_waypoints_failure_lasts(
    acc: Seq<char>,
    level: nat,
    points: Seq<WaypointView>,
    k: int,
    n: int,
    tag: Seq<char>,
    options: OutputOptions,
)
    requires
        k <= n,
        with_waypoints(acc, level, points, k, tag, options) is Err,
    ensures
        with_waypoints(acc, level, points, n, tag, options) == with_waypoints(
            acc,
            level,
            points,
            k,
            tag,
            options,
        ),
    decreases n - k,
{
    if k < n {
        lemma_waypoints_failure_lasts(acc, level, points, k, n - 1, tag, options);
    }
}

/// What a route and a track have in common, which is written first.
pub open spec fn with_heading(
    acc: Seq<char>,
    level: nat,
    name: Option<Seq<char>>,
    comment: Option<Seq<char>>,
    description: Option<Seq<char>>,
    source: Option<Seq<char>>,
    links: Seq<LinkView>,
    number: Option<u32>,
    type_: Option<Seq<char>>,
    extensions: Option<ExtensionsView>,
) -> Seq<char> {
    let named = with_optional(acc, level, "name"@, name);
    let commented = with_optional(named, level, "cmt"@, comment);
    let described = with_optional(commented, level, "desc"@, description);
    let sourced = with_optional(described, level, "src"@, source);
    let linked = with_links(sourced, level, links, links.len() as int);
    let numbered = with_optional(
        linked,
        level,
        "number"@,
        count_of(
            match number {
                Some(n) => Some(n as int),
                None => None,
            },
        ),
    );
    let typed = with_optional(numbered, level, "type"@, type_);
    with_extensions(typed, level, extensions)
}

/// Writes what a route and a track have in common.
fn write_heading(
    w: &mut String,
    level: usize,
    name: &Option<String>,
    comment: &Option<String>,
    description: &Option<String>,
    source: &Option<String>,
    links: &Vec<Link>,
    number: Option<u32>,
    type_: &Option<String>,
    extensions: &Option<Extensions>,
)
    requires
        level < usize::MAX,
    ensures
        final(w)@ == with_heading(
            old(w)@,
            level as nat,
            text_of(*name),
            text_of(*comment),
            text_of(*description),
            text_of(*source),
            link_views(links@),
            number,
            text_of(*type_),
            match *extensions {
                Some(e) => Some(e@),
                None => None,
            },
        ),
{
    write_optional(w, level, "name", name);
    write_optional(w, level, "cmt", comment);
    write_optional(w, level, "desc", description);
    write_optional(w, level, "src", source);
    write_links(w, level, links);
    match number {
        Some(n) => write_element(w, level, "number", format_integer(n as i64).as_str()),
        None => {},
    }
    write_optional(w, level, "type", type_);
    write_extensions(w, level, extensions);
}

/// The text `acc` followed by a route.
pub open spec fn with_route(acc: Seq<char>, level: nat, route: RouteView) -> Result<
    Seq<char>,
    Failure,
> {
    let headed = with_heading(
        with_open(acc, level, "rte"@),
        level + 1,
        route.name,
        route.comment,
        route.description,
        route.source,
        route.links,
        route.number,
        route.type_,
        route.extensions,
    );
    match with_waypoints(
        headed,
        level + 1,
        route.points,
        route.points.len() as int,
        "rtept"@,
        OutputOptions::Full,
    ) {
        Err(f) => Err(f),
        Ok(pointed) => Ok(with_close(pointed, level, "rte"@)),
    }
}

/// Writes a route.
pub fn write_route(w: &mut String, level: usize, route: &Route) -> (done: Result<(), GapixError>)
    requires
        level < usize::MAX - 2,
    ensures
        done is Ok ==> with_route(old(w)@, level as nat, route@) == Ok::<Seq<char>, Failure>(
            final(w)@,
        ),
        done matches Err(e) ==> with_route(old(w)@, level as nat, route@) == Err::<
            Seq<char>,
            Failure,
        >(e@),
{
    write_open(w, level, "rte");
    write_heading(
        w,
        level + 1,
        &route.name,
        &route.comment,
        &route.description,
        &route.source,
        &route.links,
        route.number,
        &route.type_,
        &route.extensions,
    );
    write_waypoints(w, level + 1, &route.points, "rtept", OutputOptions::Full)?;
    write_close(w, level, "rte");
    Ok(())
}

/// The text `acc` followed by a track segment.
pub open spec fn with_track_segment(
    acc: Seq<char>,
    level: nat,
    segment: TrackSegmentView,
    options: OutputOptions,
) -> Result<Seq<char>, Failure> {
    match with_waypoints(
        with_open(acc, level, "trkseg"@),
        level + 1,
        segment.points,
        segment.points.len() as int,
        "trkpt"@,
        options,
    ) {
        Err(f) => Err(f),
        Ok(pointed) => Ok(
            with_close(with_extensions(pointed, level + 1, segment.extensions), level, "trkseg"@),
        ),
    }
}

/// Writes a track segment.
pub fn write_track_segment(
    w: &mut String,
    level: usize,
    segment: &TrackSegment,
    output_options: OutputOptions,
) -> (done: Result<(), GapixError>)
    requires
        level < usize::MAX - 2,
    ensures
        done is Ok ==> with_track_segment(old(w)@, level as nat, segment@, output_options) == Ok::<
            Seq<char>,
            Failure,
        >(final(w)@),
        done matches Err(e) ==> with_track_segment(old(w)@, level as nat, segment@, output_options)
            == Err::<Seq<char>, Failure>(e@),
{
    write_open(w, level, "trkseg");
    write_waypoints(w, level + 1, &segment.points, "trkpt", output_options)?;
    write_extensions(w, level + 1, &segment.extensions);
    write_close(w, level, "trkseg");
    Ok(())
}

/// The text `acc` followed by the first `n` segments of a track.
pub open spec fn with_track_segments(
    acc: Seq<char>,
    level: nat,
    segments: Seq<TrackSegmentView>,
    n: int,
    options: OutputOptions,
) -> Result<Seq<char>, Failure>
    decreases n,
{
    if n <= 0 {
        Ok(acc)
    } else {
        match with_track_segments(acc, level, segments, n - 1, options) {
            Err(f) => Err(f),
            Ok(written) => with_track_segment(written, level, segments[n - 1], options),
        }
    }
}

/// Once a segment has made writing fail, the segments after it change
/// nothing.
pub proof fn lemma_segments_failure_lasts(
    acc: Seq<char>,
    level: nat,
    segments: Seq<TrackSegmentView>,
    k: int,
    n: int,
    options: OutputOptions,
)
    requires
        k <= n,
        with_track_segments(acc, level, segments, k, options) is Err,
    ensures
        with_track_segments(acc, level, segments, n, options) == with_track_segments(
            acc,
            level,
            segments,
            k,
            options,
        ),
    decreases n - k,
{
    if k < n {
        lemma_segments_failure_lasts(acc, level, segments, k, n - 1, options);
    }
}

/// Writes the segments of a track one after the other.
fn write_track_segments(
    w: &mut String,
    level: usize,
    segments: &Vec<TrackSegment>,
    output_options: OutputOptions,
) -> (done: Result<(), GapixError>)
    requires
        level < usize::MAX - 2,
    ensures
        done is Ok ==> with_track_segments(
            old(w)@,
            level as nat,
            track_segment_views(segments@),
            segments@.len() as int,
            output_options,
        ) == Ok::<Seq<char>, Failure>(final(w)@),
        done matches Err(e) ==> with_track_segments(
            old(w)@,
            level as nat,
            track_segment_views(segments@),
            segments@.len() as int,
            output_options,
        ) == Err::<Seq<char>, Failure>(e@),
{
    let n: usize = segments.len();
    let mut i: usize = 0;
    while i < n
        invariant
            n == segments@.len(),
            i <= n,
            level < usize::MAX - 2,
            with_track_segments(
                old(w)@,
                level as nat,
                track_segment_views(segments@),
                i as int,
                output_options,
            ) == Ok::<Seq<char>, Failure>(w@),
        decreases n - i,
    {
        match write_track_segment(w, level, &segments[i], output_options) {
            Ok(()) => {},
            Err(e) => {
                proof {
                    lemma_segments_failure_lasts(
                        old(w)@,
                        level as nat,
                        track_segment_views(segments@),
                        i + 1,
                        n as int,
                        output_options,
                    );
                }
                return Err(e);
            },
        }
        i += 1;
    }
    Ok(())
}

/// The text `acc` followed by a track.
pub open spec fn with_track(
    acc: Seq<char>,
    level: nat,
    track: TrackView,
    options: OutputOptions,
) -> Result<
    Seq<char>,
    Failure,
> {
    let headed = with_heading(
        with_open(acc, level, "trk"@),
        level + 1,
        track.name,
        track.comment,
        track.description,
        track.source,
        track.links,
        track.number,
        track.type_,
        track.extensions,
    );
    match with_track_segments(
        headed,
        level + 1,
        track.segments,
        track.segments.len() as int,
        options,
    ) {
        Err(f) => Err(f),
        Ok(segmented) => Ok(with_close(segmented, level, "trk"@)),
    }
}

/// Writes a track.
pub fn write_track(
    w: &mut String,
    level: usize,
    track: &Track,
    output_options: OutputOptions,
) -> (done:
    Result<(), GapixError>)
    requires
        level < usize::MAX - 3,
    ensures
        done is Ok ==> with_track(old(w)@, level as nat, track@, output_options) == Ok::<
            Seq<char>,
            Failure,
        >(final(w)@),
        done matches Err(e) ==> with_track(old(w)@, level as nat, track@, output_options) == Err::<
            Seq<char>,
            Failure,
        >(e@),
{
    write_open(w, level, "trk");
    write_heading(
        w,
        level + 1,
        &track.name,
        &track.comment,
        &track.description,
        &track.source,
        &track.links,
        track.number,
        &track.type_,
        &track.extensions,
    );
    write_track_segments(w, level + 1, &track.segments, output_options)?;
    write_close(w, level, "trk");
    Ok(())
}

/// The text `acc` followed by the first `n` routes.
pub open spec fn with_routes(acc: Seq<char>, level: nat, routes: Seq<RouteView>, n: int) -> Result<
    Seq<char>,
    Failure,
>
    decreases n,
{
    if n <= 0 {
        Ok(acc)
    } else {
        match with_routes(acc, level, routes, n - 1) {
            Err(f) => Err(f),
            Ok(written) => with_route(written, level, routes[n - 1]),
        }
    }
}

/// Once a route has made writing fail, the routes after it change nothing.
pub proof fn lemma_routes_failure_lasts(
    acc: Seq<char>,
    level: nat,
    routes: Seq<RouteView>,
    k: int,
    n: int,
)
    requires
        k <= n,
        with_routes(acc, level, routes, k) is Err,
    ensures
        with_routes(acc, level, routes, n) == with_routes(acc, level, routes, k),
    decreases n - k,
{
    if k < n {
        lemma_routes_failure_lasts(acc, level, routes, k, n - 1);
    }
}

/// Writes routes one after the other.
fn write_routes(w: &mut String, level: usize, routes: &Vec<Route>) -> (done: Result<
    (),
    GapixError,
>)
    requires
        level < usize::MAX - 2,
    ensures
        done is Ok ==> with_routes(
            old(w)@,
            level as nat,
            route_views(routes@),
            routes@.len() as int,
        ) == Ok::<Seq<char>, Failure>(final(w)@),
        done matches Err(e) ==> with_routes(
            old(w)@,
            level as nat,
            route_views(routes@),
            routes@.len() as int,
        ) == Err::<Seq<char>, Failure>(e@),
{
    let n: usize = routes.len();
    let mut i: usize = 0;
    while i < n
        invariant
            n == routes@.len(),
            i <= n,
            level < usize::MAX - 2,
            with_routes(old(w)@, level as nat, route_views(routes@), i as int) == Ok::<
                Seq<char>,
                Failure,
            >(w@),
        decreases n - i,
    {
        match write_route(w, level, &routes[i]) {
            Ok(()) => {},
            Err(e) => {
                proof {
                    lemma_routes_failure_lasts(
                        old(w)@,
                        level as nat,
                        route_views(routes@),
                        i + 1,
                        n as int,
                    );
                }
                return Err(e);
            },
        }
        i += 1;
    }
    Ok(())
}

/// The text `acc` followed by the first `n` tracks.
pub open spec fn with_tracks(
    acc: Seq<char>,
    level: nat,
    tracks: Seq<TrackView>,
    n: int,
    options: OutputOptions,
) -> Result<Seq<char>, Failure>
    decreases n,
{
    if n <= 0 {
        Ok(acc)
    } else {
        match with_tracks(acc, level, tracks, n - 1, options) {
            Err(f) => Err(f),
            Ok(written) => with_track(written, level, tracks[n - 1], options),
        }
    }
}

/// Once a track has made writing fail, the tracks after it change nothing.
pub proof fn lemma_tracks_failure_lasts(
    acc: Seq<char>,
    level: nat,
    tracks: Seq<TrackView>,
    k: int,
    n: int,
    options: OutputOptions,
)
    requires
        k <= n,
        with_tracks(acc, level, tracks, k, options) is Err,
    ensures
        with_tracks(acc, level, tracks, n, options) == with_tracks(acc, level, tracks, k, options),
    decreases n - k,
{
    if k < n {
        lemma_tracks_failure_lasts(acc, level, tracks, k, n - 1, options);
    }
}

/// Writes tracks one after the other.
fn write_tracks(
    w: &mut String,
    level: usize,
    tracks: &Vec<Track>,
    output_options: OutputOptions,
) -> (done:
    Result<(), GapixError>)
    requires
        level < usize::MAX - 3,
    ensures
        done is Ok ==> with_tracks(
            old(w)@,
            level as nat,
            track_views(tracks@),
            tracks@.len() as int,
            output_options,
        ) == Ok::<Seq<char>, Failure>(final(w)@),
        done matches Err(e) ==> with_tracks(
            old(w)@,
            level as nat,
            track_views(tracks@),
            tracks@.len() as int,
            output_options,
        ) == Err::<Seq<char>, Failure>(e@),
{
    let n: usize = tracks.len();
    let mut i: usize = 0;
    while i < n
        invariant
            n == tracks@.len(),
            i <= n,
            level < usize::MAX - 3,
            with_tracks(old(w)@, level as nat, track_views(tracks@), i as int, output_options)
                == Ok::<Seq<char>, Failure>(w@),
        decreases n - i,
    {
        match write_track(w, level, &tracks[i], output_options) {
            Ok(()) => {},
            Err(e) => {
                proof {
                    lemma_tracks_failure_lasts(
                        old(w)@,
                        level as nat,
                        track_views(tracks@),
                        i + 1,
                        n as int,
                        output_options,
                    );
                }
                return Err(e);
            },
        }
        i += 1;
    }
    Ok(())
}

/// The text of a file: its declaration, the root with its attributes, the
/// metadata, then with full detail the waypoints and the routes, the
/// tracks, and with full detail the extensions.
pub open spec fn gpx_text(gpx: GpxView, options: OutputOptions) -> Result<Seq<char>, Failure> {
    let opened = with_gpx_open(with_declaration(Seq::empty(), gpx.declaration), gpx);
    match with_metadata(opened, 1, gpx.metadata) {
        Err(f) => Err(f),
        Ok(described) => match (match options {
            OutputOptions::Full => match with_waypoints(
                described,
                1,
                gpx.waypoints,
                gpx.waypoints.len() as int,
                "wpt"@,
                options,
            ) {
                Err(f) => Err(f),
                Ok(pointed) => with_routes(pointed, 1, gpx.routes, gpx.routes.len() as int),
            },
            OutputOptions::AudaxUKDIY => Ok(described),
        }) {
            Err(f) => Err(f),
            Ok(routed) => match with_tracks(
                routed,
                1,
                gpx.tracks,
                gpx.tracks.len() as int,
                options,
            ) {
                Err(f) => Err(f),
                Ok(with_all_tracks) => Ok(
                    (match options {
                        OutputOptions::Full => with_extensions(with_all_tracks, 1, gpx.extensions),
                        OutputOptions::AudaxUKDIY => with_all_tracks,
                    }) + "</gpx>\n"@,
                ),
            },
        },
    }
}

/// Writes a file as text.
pub fn write_gpx_to_writer(gpx: &Gpx, output_options: OutputOptions) -> (text: Result<
    String,
    GapixError,
>)
    ensures
        text matches Ok(t) ==> gpx_text(gpx@, output_options) == Ok::<Seq<char>, Failure>(t@),
        text matches Err(e) ==> gpx_text(gpx@, output_options) == Err::<Seq<char>, Failure>(e@),
{
    let mut w: String = String::new();
    assert(w@ =~= Seq::<char>::empty());
    write_declaration(&mut w, &gpx.declaration);
    write_gpx_open(&mut w, gpx);
    write_metadata(&mut w, 1, &gpx.metadata)?;
    match output_options {
        OutputOptions::Full => {
            write_waypoints(&mut w, 1, &gpx.waypoints, "wpt", output_options)?;
            write_routes(&mut w, 1, &gpx.routes)?;
        },
        OutputOptions::AudaxUKDIY => {
            // Waypoints and routes not needed
        },
    }
    write_tracks(&mut w, 1, &gpx.tracks, output_options)?;
    match output_options {
        OutputOptions::Full => {
            write_extensions(&mut w, 1, &gpx.extensions);
        },
        OutputOptions::AudaxUKDIY => {
            // Extensions not needed
        },
    }
    w.append("</gpx>\n");
    Ok(w)
}

} // verus!
