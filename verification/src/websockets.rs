//! What the server does with one message from a browser's websocket: the
//! decision part of the handler. The caller performs the returned actions
//! (replying to the sender, broadcasting to every browser) in order.

use vstd::prelude::*;

use crate::employees::{BadgeView, EmployeeBadgeIn};
use crate::state::{badge_views, shifted_count, GCS};
use crate::text::{
    chars_of, contains_text, find_from, find_text, lemma_find_first, lemma_find_from, occurs_at,
};

verus! {

/// Something to send in answer to a message.
#[derive(Debug, PartialEq)]
pub enum WsAction {
    /// Send to the browser whose message this answers.
    Reply(String),
    /// Send to every connected browser.
    Broadcast(String),
}

/// What an action stands for.
pub enum ActionView {
    Reply(Seq<char>),
    Broadcast(Seq<char>),
}

impl View for WsAction {
    type V = ActionView;

    open spec fn view(&self) -> ActionView {
        match self {
            WsAction::Reply(s) => ActionView::Reply(s@),
            WsAction::Broadcast(s) => ActionView::Broadcast(s@),
        }
    }
}

/// A list of actions, as values.
pub open spec fn action_views(v: Seq<WsAction>) -> Seq<ActionView> {
    v.map_values(|a: WsAction| a@)
}

/// The message a browser sends when it connects.
pub open spec fn connect_message() -> Seq<char> {
    "browser-has-connected"@
}

/// The text that marks a message as a badge read.
pub open spec fn read_id_marker() -> Seq<char> {
    "read-id:"@
}

/// A single colon.
pub open spec fn colon() -> Seq<char> {
    seq![':']
}

/// The message reports a badge read: `...:<id>:<location>`.
pub open spec fn is_badge_read(m: Seq<char>) -> bool {
    m != connect_message() && contains_text(m, read_id_marker())
}

/// Index of the first colon of the message.
pub open spec fn first_colon(m: Seq<char>) -> int {
    find_from(m, colon(), 0)->0
}

/// Index of the next colon after the first one, if there is one.
pub open spec fn second_colon(m: Seq<char>) -> Option<int> {
    find_from(m, colon(), first_colon(m) + 1)
}

/// A badge read names both an id and a location: after its first colon
/// there is another one. Other messages are always complete.
pub open spec fn badge_read_is_complete(m: Seq<char>) -> bool {
    is_badge_read(m) ==> second_colon(m) is Some
}

/// The badge id of a badge read: the text between its first two colons.
pub open spec fn badge_id_of(m: Seq<char>) -> Seq<char> {
    m.subrange(first_colon(m) + 1, second_colon(m)->0)
}

/// The location of a badge read: the text after its second colon.
pub open spec fn badge_location_of(m: Seq<char>) -> Seq<char> {
    m.subrange(second_colon(m)->0 + 1, m.len() as int)
}

/// The first index at or after `i` of an entry for badge `id`.
pub open spec fn badge_index_from(list: Seq<BadgeView>, id: Seq<char>, i: int) -> Option<int>
    decreases list.len() - i,
{
    if i < 0 || i >= list.len() {
        None
    } else if list[i].id == id {
        Some(i)
    } else {
        badge_index_from(list, id, i + 1)
    }
}

/// Badge `id` is badged in.
pub open spec fn is_badged_in(list: Seq<BadgeView>, id: Seq<char>) -> bool {
    badge_index_from(list, id, 0) is Some
}

/// A badge read for `id` at `location`: an employee who is badged in
/// leaves (their entry goes), one who is not arrives (an entry at the end).
pub open spec fn toggle_badge(list: Seq<BadgeView>, id: Seq<char>, location: Seq<char>) -> Seq<
    BadgeView,
> {
    match badge_index_from(list, id, 0) {
        Some(k) => list.remove(k),
        None => list.push(BadgeView { id: id, location: Some(location) }),
    }
}

/// No badge id appears twice.
pub open spec fn badge_ids_distinct(list: Seq<BadgeView>) -> bool {
    forall|i: int, j: int| 0 <= i < j < list.len() ==> list[i].id != list[j].id
}

/// The command that colours a map location green.
pub open spec fn green_command(location: Seq<char>) -> Seq<char> {
    "change_map_svg_elm_color('"@ + location + "', 'green');"@
}

/// The command that colours a map location yellow.
pub open spec fn yellow_command(location: Seq<char>) -> Seq<char> {
    "change_map_svg_elm_color('"@ + location + "', 'yellow');"@
}

/// The script that clears the badge input field of the sender.
pub open spec fn clear_badge_input_js() -> Seq<char> {
    "\ndocument.getElementById('badge_id_input').value = '';\n"@
}

/// The script that flashes the sender's page yellow: someone left.
pub open spec fn leaving_js() -> Seq<char> {
    "\ndocument.body.style.background = 'yellow';\nsetTimeout(function() { document.body.style.background = ''; }, 2 * 1000);\n"@
}

/// The script that flashes the sender's page green: someone arrived.
pub open spec fn arriving_js() -> Seq<char> {
    "\ndocument.body.style.background = 'green';\nsetTimeout(function() { document.body.style.background = ''; }, 2 * 1000);\n"@
}

/// The script that shows the server's version on the sender's page.
pub open spec fn version_announcement(version: Seq<char>) -> Seq<char> {
    "var m = document.getElementById('versionmessage'); if (m) { m.innerHTML = '"@ + version
        + "'; } "@
}

/// For each badged-in entry with a location, in order, a reply that
/// colours that location green.
pub open spec fn location_replies(list: Seq<BadgeView>) -> Seq<ActionView>
    decreases list.len(),
{
    if list.len() == 0 {
        seq![]
    } else {
        location_replies(list.drop_last()) + match list.last().location {
            Some(l) => seq![ActionView::Reply(green_command(l))],
            None => seq![],
        }
    }
}

/// The actions that answer message `m`.
pub open spec fn incoming_actions(list: Seq<BadgeView>, m: Seq<char>, version: Seq<char>) -> Seq<
    ActionView,
> {
    if m == connect_message() {
        location_replies(list).push(ActionView::Reply(version_announcement(version)))
    } else if is_badge_read(m) {
        if is_badged_in(list, badge_id_of(m)) {
            seq![
                ActionView::Reply(clear_badge_input_js()),
                ActionView::Broadcast(yellow_command(badge_location_of(m))),
                ActionView::Reply(leaving_js()),
            ]
        } else {
            seq![
                ActionView::Reply(clear_badge_input_js()),
                ActionView::Broadcast(green_command(badge_location_of(m))),
                ActionView::Reply(arriving_js()),
            ]
        }
    } else {
        seq![ActionView::Broadcast(m)]
    }
}

/// Who is badged in after message `m`.
pub open spec fn incoming_badged(list: Seq<BadgeView>, m: Seq<char>) -> Seq<BadgeView> {
    if is_badge_read(m) {
        toggle_badge(list, badge_id_of(m), badge_location_of(m))
    } else {
        list
    }
}

/// The number of connected machines after message `m`.
pub open spec fn incoming_connected(count: int, m: Seq<char>) -> int {
    if m == connect_message() {
        shifted_count(count, 1)
    } else {
        count
    }
}

/// What `badge_index_from` returns is the first matching entry from `i` on.
pub proof fn lemma_badge_index_from(list: Seq<BadgeView>, id: Seq<char>, i: int)
    requires
        0 <= i,
    ensures
        match badge_index_from(list, id, i) {
            Some(k) => {
                &&& i <= k < list.len()
                &&& list[k].id == id
                &&& forall|j: int| i <= j < k ==> list[j].id != id
            },
            None => forall|j: int| i <= j < list.len() ==> list[j].id != id,
        },
    decreases list.len() - i,
{
    if i >= list.len() {
    } else if list[i].id == id {
    } else {
        lemma_badge_index_from(list, id, i + 1);
    }
}

/// A badge read has a first colon: the one its marker ends with.
proof fn lemma_badge_read_has_colon(m: Seq<char>)
    requires
        contains_text(m, read_id_marker()),
    ensures
        find_from(m, colon(), 0) is Some,
{
    lemma_find_from(m, read_id_marker(), 0);
    let k = find_from(m, read_id_marker(), 0)->0;
    reveal_strlit("read-id:");
    assert(m.subrange(k, k + 8)[7] == ':');
    assert(m.subrange(k + 7, k + 8) =~= colon());
    assert(occurs_at(m, colon(), k + 7));
    lemma_find_from(m, colon(), 0);
}

/// Removing an entry keeps badge ids distinct.
proof fn lemma_remove_keeps_distinct(list: Seq<BadgeView>, k: int)
    requires
        badge_ids_distinct(list),
        0 <= k < list.len(),
    ensures
        badge_ids_distinct(list.remove(k)),
{
    let r = list.remove(k);
    assert forall|i: int, j: int| 0 <= i < j < r.len() implies r[i].id != r[j].id by {
        let oi = if i < k { i } else { i + 1 };
        let oj = if j < k { j } else { j + 1 };
        assert(r[i] == list[oi]);
        assert(r[j] == list[oj]);
    }
}

/// A badge read toggles the entry of its id and keeps badge ids distinct.
pub proof fn lemma_toggle_keeps_distinct(list: Seq<BadgeView>, id: Seq<char>, location: Seq<char>)
    requires
        badge_ids_distinct(list),
    ensures
        badge_ids_distinct(toggle_badge(list, id, location)),
{
    lemma_badge_index_from(list, id, 0);
    match badge_index_from(list, id, 0) {
        Some(k) => lemma_remove_keeps_distinct(list, k),
        None => {
            let r = list.push(BadgeView { id: id, location: Some(location) });
            assert forall|i: int, j: int| 0 <= i < j < r.len() implies r[i].id != r[j].id by {
                if j == list.len() {
                    assert(r[i] == list[i]);
                } else {
                    assert(r[i] == list[i]);
                    assert(r[j] == list[j]);
                }
            }
        },
    }
}


/// Badging in and then badging out again with the same badge restores who
/// is badged in, whatever the two locations.
pub proof fn law_badge_in_then_out(
    list: Seq<BadgeView>,
    id: Seq<char>,
    location_in: Seq<char>,
    location_out: Seq<char>,
)
    requires
        !is_badged_in(list, id),
    ensures
        toggle_badge(toggle_badge(list, id, location_in), id, location_out) == list,
{
    lemma_badge_index_from(list, id, 0);
    let pushed = list.push(BadgeView { id: id, location: Some(location_in) });
    assert(toggle_badge(list, id, location_in) == pushed);
    lemma_badge_index_from(pushed, id, 0);
    match badge_index_from(pushed, id, 0) {
        Some(k) => {
            if k < list.len() {
                assert(pushed[k] == list[k]);
            }
            assert(k == list.len());
            assert(pushed.remove(k) =~= list);
        },
        None => {
            assert(pushed[list.len() as int].id == id);
        },
    }
}

/// A badge read flips whether its employee is badged in: one who was in
/// is out afterwards, one who was out is in (badge ids being distinct).
pub proof fn law_badge_read_flips_presence(list: Seq<BadgeView>, id: Seq<char>, location: Seq<char>)
    requires
        badge_ids_distinct(list),
    ensures
        is_badged_in(toggle_badge(list, id, location), id) == !is_badged_in(list, id),
{
    lemma_badge_index_from(list, id, 0);
    let t = toggle_badge(list, id, location);
    lemma_badge_index_from(t, id, 0);
    match badge_index_from(list, id, 0) {
        Some(k) => {
            if badge_index_from(t, id, 0) is Some {
                let j = badge_index_from(t, id, 0)->0;
                if j < k {
                    assert(t[j] == list[j]);
                } else {
                    assert(t[j] == list[j + 1]);
                }
            }
        },
        None => {
            assert(t[list.len() as int].id == id);
        },
    }
}

/// Two badge reads of the same badge, by an employee who was not badged
/// in, leave who is badged in as it was: the first badges in, the second
/// badges out.
pub proof fn law_two_reads_restore_presence(list: Seq<BadgeView>, first: Seq<char>, second: Seq<char>)
    requires
        is_badge_read(first),
        is_badge_read(second),
        badge_id_of(first) == badge_id_of(second),
        !is_badged_in(list, badge_id_of(first)),
    ensures
        incoming_badged(incoming_badged(list, first), second) == list,
{
    law_badge_in_then_out(list, badge_id_of(first), badge_location_of(first), badge_location_of(second));
}

/// Any message that is neither the connect message nor a badge read is
/// passed on unchanged to every browser, and changes nothing.
pub proof fn law_other_messages_are_relayed(list: Seq<BadgeView>, count: int, m: Seq<char>, version: Seq<char>)
    requires
        m != connect_message(),
        !is_badge_read(m),
    ensures
        incoming_actions(list, m, version) == seq![ActionView::Broadcast(m)],
        incoming_badged(list, m) == list,
        incoming_connected(count, m) == count,
{
}

/// The reply that colours an entry's location green, if it has one.
pub open spec fn green_reply_of(b: BadgeView) -> Option<ActionView> {
    match b.location {
        Some(l) => Some(ActionView::Reply(green_command(l))),
        None => None,
    }
}

/// A browser that connects gets one green colouring per badged-in entry
/// that has a location, in list order, and nothing for the others: the
/// replies are the list with every located entry turned into the
/// colouring of its location and every other entry dropped.
pub proof fn law_connect_colours_every_location(list: Seq<BadgeView>)
    ensures
        location_replies(list) == list.filter_map(|b: BadgeView| green_reply_of(b)),
    decreases list.len(),
{
    if list.len() > 0 {
        law_connect_colours_every_location(list.drop_last());
    }
}

/// One more located entry adds exactly one more colouring at the end; one
/// more entry without a location adds none.
pub proof fn law_connect_colouring_grows_with_list(list: Seq<BadgeView>, e: BadgeView)
    ensures
        e.location matches Some(l) ==> location_replies(list.push(e)) == location_replies(
            list,
        ).push(ActionView::Reply(green_command(l))),
        e.location is None ==> location_replies(list.push(e)) == location_replies(list),
{
    assert(list.push(e).drop_last() =~= list);
}

/// The number of colourings a connecting browser gets is the number of
/// badged-in entries that have a location, however many there are.
pub proof fn law_connect_colouring_count(list: Seq<BadgeView>)
    ensures
        location_replies(list).len() == list.filter(|b: BadgeView| b.location is Some).len(),
    decreases list.len(),
{
    reveal_with_fuel(Seq::filter, 1);
    if list.len() > 0 {
        law_connect_colouring_count(list.drop_last());
    }
}

/// The connect message is answered by the colourings of every located
/// entry, in order, and then the version announcement, and by nothing else.
pub proof fn law_connect_answer(list: Seq<BadgeView>, version: Seq<char>)
    ensures
        incoming_actions(list, connect_message(), version) == list.filter_map(
            |b: BadgeView| green_reply_of(b),
        ).push(ActionView::Reply(version_announcement(version))),
        incoming_actions(list, connect_message(), version).len() == list.filter(
            |b: BadgeView| b.location is Some,
        ).len() + 1,
{
    law_connect_colours_every_location(list);
    law_connect_colouring_count(list);
}

/// `read-id:` has eight letters, a colon only at its end, and does not
/// start like the connect message.
proof fn lemma_marker_shape()
    ensures
        read_id_marker().len() == 8,
        read_id_marker()[7] == ':',
        forall|k: int| 0 <= k < 7 ==> read_id_marker()[k] != ':',
        read_id_marker()[0] == 'r',
        connect_message().len() > 0,
        connect_message()[0] == 'b',
{
    reveal_strlit("read-id:");
    reveal_strlit("browser-has-connected");
    let m = read_id_marker();
    assert(m[0] == 'r' && m[1] == 'e' && m[2] == 'a' && m[3] == 'd' && m[4] == '-' && m[5] == 'i'
        && m[6] == 'd');
}

/// A badge reader's message `read-id:<id>:<location>`, with no colon in the
/// id, is a complete badge read of that id at that location, whatever the
/// location holds.
pub proof fn law_badge_message_fields(id: Seq<char>, location: Seq<char>)
    requires
        !id.contains(':'),
    ensures
        is_badge_read(read_id_marker() + id + colon() + location),
        badge_read_is_complete(read_id_marker() + id + colon() + location),
        badge_id_of(read_id_marker() + id + colon() + location) == id,
        badge_location_of(read_id_marker() + id + colon() + location) == location,
{
    let mk = read_id_marker();
    let m = mk + id + colon() + location;
    lemma_marker_shape();
    assert(m[0] == 'r');
    assert(m != connect_message());
    assert(m.subrange(0, 8) =~= mk);
    lemma_find_first(m, mk, 0, 0);
    assert(m.subrange(7, 8) =~= colon());
    assert forall|j: int| 0 <= j < 7 implies !occurs_at(m, colon(), j) by {
        assert(m.subrange(j, j + 1)[0] == m[j]);
        assert(m[j] == mk[j]);
    }
    lemma_find_first(m, colon(), 0, 7);
    let c2: int = 8int + id.len();
    assert(m.subrange(c2, c2 + 1) =~= colon());
    assert forall|j: int| 8 <= j < c2 implies !occurs_at(m, colon(), j) by {
        assert(m.subrange(j, j + 1)[0] == m[j]);
        assert(m[j] == id[j - 8]);
    }
    lemma_find_first(m, colon(), 8, c2);
    assert(m.subrange(8, c2) =~= id);
    assert(m.subrange(c2 + 1, m.len() as int) =~= location);
}

/// What a badge read does to who is badged in: an employee who was not in
/// is added at the end, with the read's location, and everyone else stays
/// as they were; an employee who was in (ids being distinct) is taken out,
/// and everyone else stays, in order.
pub proof fn law_badge_read_effects(list: Seq<BadgeView>, id: Seq<char>, location: Seq<char>)
    ensures
        !is_badged_in(list, id) ==> {
            let t = toggle_badge(list, id, location);
            &&& t.len() == list.len() + 1
            &&& t.last() == BadgeView { id: id, location: Some(location) }
            &&& t.drop_last() == list
        },
        is_badged_in(list, id) && badge_ids_distinct(list) ==> {
            let t = toggle_badge(list, id, location);
            &&& t.len() + 1 == list.len()
            &&& forall|i: int| 0 <= i < t.len() ==> t[i].id != id
            &&& forall|i: int|
                0 <= i < list.len() && list[i].id != id ==> t.contains(list[i])
        },
{
    lemma_badge_index_from(list, id, 0);
    let t = toggle_badge(list, id, location);
    if !is_badged_in(list, id) {
        assert(t.drop_last() =~= list);
    } else if badge_ids_distinct(list) {
        let k = badge_index_from(list, id, 0)->0;
        assert forall|i: int| 0 <= i < t.len() implies t[i].id != id by {
            if i < k {
                assert(t[i] == list[i]);
            } else {
                assert(t[i] == list[i + 1]);
            }
        }
        assert forall|i: int| 0 <= i < list.len() && list[i].id != id implies t.contains(list[i]) by {
            if i < k {
                assert(t[i] == list[i]);
            } else {
                assert(i != k);
                assert(t[i - 1] == list[i]);
            }
        }
    }
}

fn green_command_text(location: &str) -> (s: String)
    ensures
        s@ == green_command(location@),
{
    let mut s = String::from_str("change_map_svg_elm_color('");
    s.append(location);
    s.append("', 'green');");
    s
}

fn yellow_command_text(location: &str) -> (s: String)
    ensures
        s@ == yellow_command(location@),
{
    let mut s = String::from_str("change_map_svg_elm_color('");
    s.append(location);
    s.append("', 'yellow');");
    s
}

fn version_announcement_text(version: &str) -> (s: String)
    ensures
        s@ == version_announcement(version@),
{
    let mut s = String::from_str(
        "var m = document.getElementById('versionmessage'); if (m) { m.innerHTML = '",
    );
    s.append(version);
    s.append("'; } ");
    s
}

/// The index of the first entry that is the same employee as `probe`.
fn badge_position(list: &Vec<EmployeeBadgeIn>, probe: &EmployeeBadgeIn) -> (r: Option<usize>)
    ensures
        match r {
            Some(k) => badge_index_from(badge_views(list@), probe@.id, 0) == Some(k as int),
            None => badge_index_from(badge_views(list@), probe@.id, 0) is None,
        },
{
    let ghost views = badge_views(list@);
    let mut i: usize = 0;
    while i < list.len()
        invariant
            i <= list.len(),
            views == badge_views(list@),
            badge_index_from(views, probe@.id, 0) == badge_index_from(views, probe@.id, i as int),
        decreases list.len() - i,
    {
        if list[i] == *probe {
            assert(views[i as int].id == probe@.id);
            return Some(i);
        }
        assert(views[i as int].id != probe@.id);
        i = i + 1;
    }
    None
}

/// How a message reads as a badge read.
#[derive(Debug, PartialEq)]
pub enum BadgeRead {
    /// The connect message, or a message without `read-id:`.
    NotBadgeRead,
    /// A badge read without a colon after the one that ends its id.
    Incomplete,
    /// A badge read of `id` at `location`.
    Read { id: String, location: String },
}

/// Reads `message` as a badge read: `...:<id>:<location>`, the id between
/// the first two colons and the location after the second.
pub fn classify_badge_read(message: &String) -> (r: BadgeRead)
    ensures
        r is NotBadgeRead <==> !is_badge_read(message@),
        r is Incomplete <==> (is_badge_read(message@) && second_colon(message@) is None),
        r matches BadgeRead::Read { id, location } ==> id@ == badge_id_of(message@) && location@
            == badge_location_of(message@),
{
    let ghost m = message@;
    let connect = String::from_str("browser-has-connected");
    if *message == connect {
        return BadgeRead::NotBadgeRead;
    }
    let chars = chars_of(message.as_str());
    let marker = chars_of("read-id:");
    if find_text(&chars, &marker, 0).is_none() {
        return BadgeRead::NotBadgeRead;
    }
    proof {
        lemma_badge_read_has_colon(m);
        lemma_find_from(m, colon(), 0);
    }
    let mut colon_text: Vec<char> = Vec::new();
    colon_text.push(':');
    assert(colon_text@ =~= colon());
    let first = find_text(&chars, &colon_text, 0).unwrap();
    proof {
        lemma_find_from(m, colon(), first + 1);
    }
    match find_text(&chars, &colon_text, first + 1) {
        None => BadgeRead::Incomplete,
        Some(second) => {
            let id = String::from_str(message.as_str().substring_char(first + 1, second));
            let location = String::from_str(
                message.as_str().substring_char(second + 1, chars.len()),
            );
            BadgeRead::Read { id, location }
        },
    }
}

/// Decides what to do with `message`, a text message from a browser:
/// - `browser-has-connected` counts one more connected machine, and
///   answers with a green colouring of every location someone is badged
///   in at, then with the server's version (`version`);
/// - any other message that contains `read-id:` is a badge read
///   `...:<id>:<location>`: the employee with that badge id leaves if they
///   are badged in and arrives otherwise; the sender's badge input is
///   cleared, every browser colours the location (yellow for leaving,
///   green for arriving), and the sender's page flashes that colour;
/// - any other message is passed on to every browser.
pub fn handle_incoming(gcs: &mut GCS, message: &String, version: &String) -> (actions: Vec<WsAction>)
    requires
        badge_read_is_complete(message@),
    ensures
        action_views(actions@) == incoming_actions(old(gcs).badged(), message@, version@),
        final(gcs).badged() == incoming_badged(old(gcs).badged(), message@),
        final(gcs).num_connected_machines == incoming_connected(
            old(gcs).num_connected_machines as int,
            message@,
        ),
        badge_ids_distinct(old(gcs).badged()) ==> badge_ids_distinct(final(gcs).badged()),
        final(gcs).num_visitors == old(gcs).num_visitors,
        final(gcs).data_dir == old(gcs).data_dir,
        final(gcs).svg_map == old(gcs).svg_map,
        final(gcs).known_employees == old(gcs).known_employees,
{
    let ghost m = message@;
    let mut actions: Vec<WsAction> = Vec::new();
    let connect = String::from_str("browser-has-connected");
    if *message == connect {
        gcs.change_connected_machines(1);
        let ghost list = gcs.badged();
        let mut i: usize = 0;
        while i < gcs.badged_in_employee_ids.len()
            invariant
                i <= gcs.badged_in_employee_ids.len(),
                list == gcs.badged(),
                action_views(actions@) == location_replies(list.take(i as int)),
            decreases gcs.badged_in_employee_ids.len() - i,
        {
            assert(list.take(i + 1).drop_last() =~= list.take(i as int));
            assert(list.take(i + 1).last() == list[i as int]);
            match &gcs.badged_in_employee_ids[i].employee_location {
                Some(location) => {
                    actions.push(WsAction::Reply(green_command_text(location.as_str())));
                    assert(action_views(actions@) =~= location_replies(list.take(i + 1)));
                },
                None => {
                    assert(action_views(actions@) =~= location_replies(list.take(i + 1)));
                },
            }
            i = i + 1;
        }
        assert(list.take(list.len() as int) =~= list);
        actions.push(WsAction::Reply(version_announcement_text(version.as_str())));
        assert(action_views(actions@) =~= incoming_actions(list, m, version@));
        return actions;
    }
    if let BadgeRead::Read { id, location } = classify_badge_read(message) {
        let location = location.as_str();
        actions.push(WsAction::Reply(String::from_str(
            "\ndocument.getElementById('badge_id_input').value = '';\n",
        )));
        let ghost list = gcs.badged();
        proof {
            lemma_badge_index_from(list, id@, 0);
        }
        let probe = EmployeeBadgeIn::new(id);
        match badge_position(&gcs.badged_in_employee_ids, &probe) {
            Some(k) => {
                gcs.badged_in_employee_ids.remove(k);
                actions.push(WsAction::Broadcast(yellow_command_text(location)));
                actions.push(WsAction::Reply(String::from_str(
                    "\ndocument.body.style.background = 'yellow';\nsetTimeout(function() { document.body.style.background = ''; }, 2 * 1000);\n",
                )));
                assert(gcs.badged() =~= list.remove(k as int));
                proof {
                    if badge_ids_distinct(list) {
                        lemma_remove_keeps_distinct(list, k as int);
                    }
                }
            },
            None => {
                let entry = EmployeeBadgeIn {
                    employee_badge_id: probe.employee_badge_id,
                    employee_location: Some(String::from_str(location)),
                };
                gcs.badged_in_employee_ids.push(entry);
                actions.push(WsAction::Broadcast(green_command_text(location)));
                actions.push(WsAction::Reply(String::from_str(
                    "\ndocument.body.style.background = 'green';\nsetTimeout(function() { document.body.style.background = ''; }, 2 * 1000);\n",
                )));
                assert(gcs.badged() =~= list.push(
                    BadgeView { id: badge_id_of(m), location: Some(badge_location_of(m)) },
                ));
                proof {
                    if badge_ids_distinct(list) {
                        lemma_toggle_keeps_distinct(list, badge_id_of(m), badge_location_of(m));
                    }
                }
            },
        }
        assert(action_views(actions@) =~= incoming_actions(list, m, version@));
        return actions;
    }
    actions.push(WsAction::Broadcast(message.clone()));
    assert(action_views(actions@) =~= incoming_actions(gcs.badged(), m, version@));
    actions
}

} // verus!
