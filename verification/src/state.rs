//! The state that every HTTP route and websocket handler shares: visitor
//! and connection counters, the uploaded map, who is badged in where, and
//! the known employees.

use vstd::prelude::*;

use crate::employees::{record_views, BadgeView, EmployeeBadgeIn, EmployeeRecord, RecordView};
use crate::svgmap::{
    law_every_listed_room_is_on_the_map, law_every_room_is_listed, names_room,
    event_views, events_are_decodable, read_svg_events, room_ids, room_ids_of_events,
    string_views, svg_map_readable, svg_xml_events,
};

verus! {

/// The shared state of the server.
#[derive(Debug)]
pub struct GCS {
    pub num_visitors: u8,
    pub data_dir: Option<String>,
    pub svg_map: Option<String>,
    pub num_connected_machines: u16,
    pub badged_in_employee_ids: Vec<EmployeeBadgeIn>,
    pub known_employees: Vec<EmployeeRecord>,
}

/// The map shown until one is uploaded.
pub const DEFAULT_MAP_SVG: &'static str = r#"<?xml version="1.0" encoding="UTF-8" standalone="no"?>
<svg
   xmlns:dc="http://purl.org/dc/elements/1.1/"
   xmlns:cc="http://creativecommons.org/ns#"
   xmlns:rdf="http://www.w3.org/1999/02/22-rdf-syntax-ns#"
   xmlns:svg="http://www.w3.org/2000/svg"
   xmlns="http://www.w3.org/2000/svg"
   xmlns:sodipodi="http://sodipodi.sourceforge.net/DTD/sodipodi-0.dtd"
   xmlns:inkscape="http://www.inkscape.org/namespaces/inkscape"
   width="200mm"
   height="100mm"
   viewBox="0 0 200 100"
   version="1.1"
   sodipodi:docname="map.svg">
  <text x="5" y="20" fill="black" font-size="12">No map, see the 'Locations' tab to upload a map.</text>
</svg>
"#;

/// What the map route serves when there is no map.
pub const NO_MAP_PLACEHOLDER: &'static str = "<!-- Error no map! -->";

/// The badge-in entries of a list, as values.
pub open spec fn badge_views(list: Seq<EmployeeBadgeIn>) -> Seq<BadgeView> {
    list.map_values(|e: EmployeeBadgeIn| e@)
}

/// The connection counter after adding `delta` to `count`: the sum taken
/// modulo 2^16, as a conversion of the sum to `u16` gives it.
pub open spec fn shifted_count(count: int, delta: int) -> int {
    (count + delta) % 65536
}

/// The visitor counter after one more visit: it runs modulo 255.
pub open spec fn next_visitor_count(count: int) -> int {
    (count + 1) % 255
}

/// Adding `delta` connections and then taking them away again restores
/// the connection counter.
pub proof fn law_connection_changes_cancel(count: u16, delta: int)
    ensures
        shifted_count(shifted_count(count as int, delta), -delta) == count,
{
    let s = count + delta;
    vstd::arithmetic::div_mod::lemma_fundamental_div_mod(s, 65536);
    let q = s / 65536;
    let r = s % 65536;
    assert(r - delta == (-q) * 65536 + count) by (nonlinear_arith)
        requires
            s == 65536 * q + r,
            s == count + delta,
    ;
    vstd::arithmetic::div_mod::lemma_fundamental_div_mod_converse(r - delta, 65536, -q, count as int);
}

/// The visitor counter stays below 255: a visit counts it up by one, and
/// the visit after 254 brings it back to 0.
pub proof fn law_visits_cycle(count: u8)
    requires
        count < 255,
    ensures
        next_visitor_count(count as int) < 255,
        count + 1 < 255 ==> next_visitor_count(count as int) == count + 1,
        count + 1 == 255 ==> next_visitor_count(count as int) == 0,
{
}

/// The rooms listed for a readable map are exactly the values of the `id`
/// attributes of its `<rect>` start tags: each of them is listed, however
/// many there are, and nothing else is.
pub proof fn law_map_lists_exactly_its_rooms(gcs: &GCS, value: Seq<char>)
    requires
        gcs.svg_map is Some,
        gcs.map_readable(),
    ensures
        gcs.map_room_ids().contains(value) <==> exists|i: int, j: int|
            names_room(svg_xml_events(gcs.svg_map->0@)->0, i, j, value),
{
    let events = svg_xml_events(gcs.svg_map->0@)->0;
    if gcs.map_room_ids().contains(value) {
        law_every_listed_room_is_on_the_map(events, value);
    }
    if exists|i: int, j: int| names_room(events, i, j, value) {
        let (i, j) = choose|i: int, j: int| names_room(events, i, j, value);
        law_every_room_is_listed(events, i, j, value);
    }
}

impl GCS {
    /// Who is badged in, and where.
    pub open spec fn badged(&self) -> Seq<BadgeView> {
        badge_views(self.badged_in_employee_ids@)
    }

    /// The known employees.
    pub open spec fn known(&self) -> Seq<RecordView> {
        record_views(self.known_employees@)
    }

    /// The state of a server that has just started: no visitors, no
    /// connected machines, nobody badged in; its data directory, its map
    /// (the stored one, else `DEFAULT_MAP_SVG`) and the employees it knows.
    pub fn new(
        data_dir: String,
        stored_map: Option<String>,
        known_employees: Vec<EmployeeRecord>,
    ) -> (gcs: GCS)
        ensures
            gcs.num_visitors == 0,
            gcs.num_connected_machines == 0,
            gcs.badged().len() == 0,
            gcs.data_dir == Some(data_dir),
            gcs.svg_map matches Some(m) && m@ == match stored_map {
                Some(s) => s@,
                None => DEFAULT_MAP_SVG@,
            },
            gcs.known_employees == known_employees,
    {
        let svg_map = match stored_map {
            Some(s) => s,
            None => String::from_str(DEFAULT_MAP_SVG),
        };
        GCS {
            num_visitors: 0,
            data_dir: Some(data_dir),
            svg_map: Some(svg_map),
            num_connected_machines: 0,
            badged_in_employee_ids: Vec::new(),
            known_employees: known_employees,
        }
    }

    /// The map can be read for its rooms (there is none, or quick-xml reads
    /// it and its rooms' attributes are UTF-8).
    pub open spec fn map_readable(&self) -> bool {
        match &self.svg_map {
            Some(m) => svg_map_readable(m@),
            None => true,
        }
    }

    /// The ids of the rooms on the map, in document order; none without a map.
    pub open spec fn map_room_ids(&self) -> Seq<Seq<char>> {
        match &self.svg_map {
            Some(m) => room_ids(svg_xml_events(m@)->0),
            None => seq![],
        }
    }

    /// The ids of the rooms on the map: the `id` attributes of its `<rect>`
    /// start tags, in document order.
    pub fn get_map_room_ids(&self) -> (ids: Vec<String>)
        requires
            self.map_readable(),
        ensures
            string_views(ids@) == self.map_room_ids(),
    {
        match &self.svg_map {
            Some(m) => match read_svg_events(m.as_str()) {
                Some(events) => room_ids_of_events(&events),
                None => Vec::new(),
            },
            None => Vec::new(),
        }
    }

    /// The ids of the rooms on the map, or `None` where the map cannot be
    /// read for them.
    pub fn try_get_map_room_ids(&self) -> (ids: Option<Vec<String>>)
        ensures
            ids is Some == self.map_readable(),
            ids matches Some(v) ==> string_views(v@) == self.map_room_ids(),
    {
        let readable = match &self.svg_map {
            Some(m) => match read_svg_events(m.as_str()) {
                Some(events) => events_are_decodable(&events),
                None => false,
            },
            None => true,
        };
        if readable {
            Some(self.get_map_room_ids())
        } else {
            None
        }
    }

    /// The map to serve: the uploaded one, else a placeholder comment.
    pub fn map_svg_or_placeholder(&self) -> (svg: String)
        ensures
            svg@ == match &self.svg_map {
                Some(m) => m@,
                None => NO_MAP_PLACEHOLDER@,
            },
    {
        match &self.svg_map {
            Some(m) => m.clone(),
            None => String::from_str(NO_MAP_PLACEHOLDER),
        }
    }

    /// The name of the first known employee with badge id `id`.
    pub fn get_employee_name(&self, id: &String) -> (name: Option<String>)
        ensures
            match name {
                Some(n) => exists|k: int|
                    0 <= k < self.known().len() && self.known()[k].id == id@ && self.known()[k].name
                        == n@ && forall|j: int| 0 <= j < k ==> self.known()[j].id != id@,
                None => forall|k: int| 0 <= k < self.known().len() ==> self.known()[k].id != id@,
            },
    {
        let mut i: usize = 0;
        while i < self.known_employees.len()
            invariant
                i <= self.known_employees.len(),
                forall|j: int| 0 <= j < i ==> self.known()[j].id != id@,
            decreases self.known_employees.len() - i,
        {
            if self.known_employees[i].employee_badge_id == *id {
                let name = self.known_employees[i].employee_name.clone();
                assert(self.known()[i as int].id == id@ && self.known()[i as int].name == name@);
                return Some(name);
            }
            i = i + 1;
        }
        None
    }

    /// Counts one more visit of the index page; the counter wraps at 255.
    pub fn record_visit(&mut self)
        ensures
            final(self).num_visitors == next_visitor_count(old(self).num_visitors as int),
            final(self).num_visitors < 255,
            final(self).data_dir == old(self).data_dir,
            final(self).svg_map == old(self).svg_map,
            final(self).num_connected_machines == old(self).num_connected_machines,
            final(self).badged_in_employee_ids == old(self).badged_in_employee_ids,
            final(self).known_employees == old(self).known_employees,
    {
        self.num_visitors = ((self.num_visitors as u64 + 1) % 255) as u8;
    }

    /// Adds `delta` to the number of connected machines; the result is
    /// taken modulo 2^16, as a conversion of the sum to `u16` gives it.
    pub fn change_connected_machines(&mut self, delta: isize)
        requires
            isize::MIN <= old(self).num_connected_machines + delta <= isize::MAX,
        ensures
            final(self).num_connected_machines == shifted_count(
                old(self).num_connected_machines as int,
                delta as int,
            ),
            final(self).num_visitors == old(self).num_visitors,
            final(self).data_dir == old(self).data_dir,
            final(self).svg_map == old(self).svg_map,
            final(self).badged_in_employee_ids == old(self).badged_in_employee_ids,
            final(self).known_employees == old(self).known_employees,
    {
        let sum: isize = self.num_connected_machines as isize + delta;
        match sum.checked_rem_euclid(65536) {
            Some(r) => {
                self.num_connected_machines = r as u16;
            },
            None => {},
        }
    }
}

} // verus!
