//! The GPX document that the locations of a task tree are exported as, for a map
//! application to open.

use vstd::prelude::*;
use vstd::string::*;
use crate::text::chars_of;
use crate::submit::{trimmed, trim_chars, string_of};
use crate::settings::{split_pieces, split_commas};

verus! {

/// A character as XML text: `&`, `<` and `>` become entities.
pub open spec fn escape_char(c: char) -> Seq<char> {
    if c == '&' {
        seq!['&', 'a', 'm', 'p', ';']
    } else if c == '<' {
        seq!['&', 'l', 't', ';']
    } else if c == '>' {
        seq!['&', 'g', 't', ';']
    } else {
        seq![c]
    }
}

/// A text as XML character data (what replacing `&`, then `<`, then `>` by their entities
/// gives).
pub open spec fn escape_xml(s: Seq<char>) -> Seq<char>
    decreases s.len(),
{
    if s.len() == 0 {
        Seq::empty()
    } else {
        escape_xml(s.drop_last()) + escape_char(s.last())
    }
}

/// The start of the document.
pub open spec fn gpx_header() -> Seq<char> {
    "<?xml version=\"1.0\" encoding=\"UTF-8\"?>\n<gpx version=\"1.1\" creator=\"Cfait\" xmlns=\"http://www.topografix.com/GPX/1/1\">\n"@
}

/// The end of the document.
pub open spec fn gpx_footer() -> Seq<char> {
    "</gpx>"@
}

/// The waypoint element of a named place whose coordinates are `lat,lon` (each trimmed),
/// or nothing when the coordinates hold no comma.
pub open spec fn waypoint_element(name: Seq<char>, geo: Seq<char>) -> Seq<char> {
    let parts = split_pieces(geo, ',');
    if parts.len() >= 2 {
        "  <wpt lat=\""@ + trimmed(parts[0]) + "\" lon=\""@ + trimmed(parts[1]) + "\"><name>"@
            + escape_xml(name) + "</name></wpt>\n"@
    } else {
        Seq::empty()
    }
}

/// The waypoint elements of a list of named places, in order.
pub open spec fn waypoint_elements(wps: Seq<(String, String)>) -> Seq<char>
    decreases wps.len(),
{
    if wps.len() == 0 {
        Seq::empty()
    } else {
        waypoint_elements(wps.drop_last()) + waypoint_element(wps.last().0@, wps.last().1@)
    }
}

/// The whole GPX document for a list of named places.
pub open spec fn spec_gpx_document(wps: Seq<(String, String)>) -> Seq<char> {
    gpx_header() + waypoint_elements(wps) + gpx_footer()
}

fn push_all(out: &mut Vec<char>, s: &Vec<char>)
    ensures
        final(out)@ == old(out)@ + s@,
{
    let mut i: usize = 0;
    while i < s.len()
        invariant
            i <= s@.len(),
            out@ == old(out)@ + s@.take(i as int),
        decreases s@.len() - i,
    {
        out.push(s[i]);
        assert(s@.take(i + 1) =~= s@.take(i as int).push(s@[i as int]));
        i = i + 1;
    }
    assert(s@.take(s@.len() as int) =~= s@);
}

fn push_escaped(out: &mut Vec<char>, s: &Vec<char>)
    ensures
        final(out)@ == old(out)@ + escape_xml(s@),
{
    let mut i: usize = 0;
    assert(s@.take(0) =~= Seq::<char>::empty());
    while i < s.len()
        invariant
            i <= s@.len(),
            out@ == old(out)@ + escape_xml(s@.take(i as int)),
        decreases s@.len() - i,
    {
        let c = s[i];
        let ghost before = out@;
        assert(s@.take(i + 1).drop_last() =~= s@.take(i as int));
        if c == '&' {
            out.push('&');
            out.push('a');
            out.push('m');
            out.push('p');
            out.push(';');
        } else if c == '<' {
            out.push('&');
            out.push('l');
            out.push('t');
            out.push(';');
        } else if c == '>' {
            out.push('&');
            out.push('g');
            out.push('t');
            out.push(';');
        } else {
            out.push(c);
        }
        assert(out@ =~= before + escape_char(c));
        i = i + 1;
    }
    assert(s@.take(s@.len() as int) =~= s@);
}

fn push_waypoint(out: &mut Vec<char>, name: &String, geo: &String)
    ensures
        final(out)@ == old(out)@ + waypoint_element(name@, geo@),
{
    let parts = split_commas(&chars_of(geo.as_str()));
    let ghost views = parts@.map_values(|v: Vec<char>| v@);
    if parts.len() < 2 {
        assert(out@ =~= old(out)@ + waypoint_element(name@, geo@));
        return;
    }
    assert(views[0] == parts@[0]@ && views[1] == parts@[1]@);
    push_all(out, &chars_of("  <wpt lat=\""));
    push_all(out, &trim_chars(&parts[0]));
    push_all(out, &chars_of("\" lon=\""));
    push_all(out, &trim_chars(&parts[1]));
    push_all(out, &chars_of("\"><name>"));
    push_escaped(out, &chars_of(name.as_str()));
    push_all(out, &chars_of("</name></wpt>\n"));
    assert(out@ =~= old(out)@ + waypoint_element(name@, geo@));
}

/// Build the GPX document for a list of named places (name, `lat,lon`): a waypoint for each
/// place whose coordinates hold a comma, with the name escaped for XML.
pub fn gpx_document(waypoints: &Vec<(String, String)>) -> (r: String)
    ensures
        r@ == spec_gpx_document(waypoints@),
{
    let mut out: Vec<char> = Vec::new();
    push_all(&mut out, &chars_of("<?xml version=\"1.0\" encoding=\"UTF-8\"?>\n<gpx version=\"1.1\" creator=\"Cfait\" xmlns=\"http://www.topografix.com/GPX/1/1\">\n"));
    let ghost head = out@;
    assert(waypoints@.take(0) =~= Seq::<(String, String)>::empty());
    let mut i: usize = 0;
    while i < waypoints.len()
        invariant
            i <= waypoints@.len(),
            head == gpx_header(),
            out@ == head + waypoint_elements(waypoints@.take(i as int)),
        decreases waypoints@.len() - i,
    {
        assert(waypoints@.take(i + 1).drop_last() =~= waypoints@.take(i as int));
        assert(waypoints@.take(i + 1).last() == waypoints@[i as int]);
        push_waypoint(&mut out, &waypoints[i].0, &waypoints[i].1);
        i = i + 1;
    }
    assert(waypoints@.take(waypoints@.len() as int) =~= waypoints@);
    push_all(&mut out, &chars_of("</gpx>"));
    assert(out@ =~= spec_gpx_document(waypoints@));
    string_of(&out)
}

} // verus!
