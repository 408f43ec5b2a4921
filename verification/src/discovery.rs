//! How devices of a local network find each other.

use vstd::prelude::*;
use vstd::utf8::{decode_utf8, valid_utf8};

use crate::http::PORT;
use crate::json::{
    is_flat, json_members, json_number_member, json_object_text, json_quoted, json_text_member,
    new_object, no_members, object_text, put_number, put_text, read_number_member,
    read_text_member,
};
use crate::number::decimal;
use crate::registry::Registry;
use crate::text::same_text;

verus! {

/// How often a device announces itself in a row.
pub const PULSES: usize = 3;

/// How many milliseconds pass after each announcement.
pub const PULSE_GAP_MS: u64 = 300;

/// The port on which announcements are heard.
pub const DISCOVERY_PORT: u16 = 45679;

/// For how many seconds a device counts as present.
pub const PRESENT_SECS: i64 = 15;

/// A device that announced itself.
pub struct DiscoveredDevice {
    pub device_id: String,
    pub device_name: String,
    pub ip: String,
    pub port: u16,
    pub last_seen: i64,
}

/// What a `DiscoveredDevice` holds.
pub struct DeviceView {
    pub device_id: Seq<char>,
    pub device_name: Seq<char>,
    pub ip: Seq<char>,
    pub port: u16,
    pub last_seen: i64,
}

impl View for DiscoveredDevice {
    type V = DeviceView;

    open spec fn view(&self) -> DeviceView {
        DeviceView {
            device_id: self.device_id@,
            device_name: self.device_name@,
            ip: self.ip@,
            port: self.port,
            last_seen: self.last_seen,
        }
    }
}

impl Clone for DiscoveredDevice {
    fn clone(&self) -> (copy: Self)
        ensures
            copy == *self,
    {
        DiscoveredDevice {
            device_id: self.device_id.clone(),
            device_name: self.device_name.clone(),
            ip: self.ip.clone(),
            port: self.port,
            last_seen: self.last_seen,
        }
    }
}

/// The devices that announced themselves, by their id.
pub type DiscoveryMap = Registry<DiscoveredDevice>;

/// The members of an announcement.
pub open spec fn announced(device_id: Seq<char>, device_name: Seq<char>) -> Map<
    Seq<char>,
    Seq<char>,
> {
    no_members().insert("device_id"@, json_quoted(device_id)).insert(
        "device_name"@,
        json_quoted(device_name),
    ).insert("port"@, decimal(PORT as nat))
}

/// `text` reads as the announcement of a device.
pub open spec fn announces(
    text: Seq<char>,
    device_id: Seq<char>,
    device_name: Seq<char>,
    port: u64,
) -> bool {
    &&& json_text_member(text, "device_id"@) == Some(device_id)
    &&& json_text_member(text, "device_name"@) == Some(device_name)
    &&& json_number_member(text, "port"@) == Some(port)
}

/// The device that announced itself as `device_id`, at `ip` and at time `now`,
/// unless it is this one or gave no id. A name or a port that it did not give
/// is filled in, and of a port the low 16 bits count.
pub open spec fn device_of(
    my_device_id: Seq<char>,
    device_id: Option<Seq<char>>,
    device_name: Option<Seq<char>>,
    port: Option<u64>,
    ip: Seq<char>,
    now: i64,
) -> Option<DeviceView> {
    match device_id {
        Some(id) => if id.len() == 0 || id == my_device_id {
            None
        } else {
            Some(
                DeviceView {
                    device_id: id,
                    device_name: match device_name {
                        Some(name) => name,
                        None => "Unknown"@,
                    },
                    ip,
                    port: match port {
                        Some(given) => (given % 0x1_0000) as u16,
                        None => PORT,
                    },
                    last_seen: now,
                },
            )
        },
        None => None,
    }
}

/// The device that announced itself by `text`.
pub open spec fn heard(
    my_device_id: Seq<char>,
    text: Seq<char>,
    ip: Seq<char>,
    now: i64,
) -> Option<DeviceView> {
    device_of(
        my_device_id,
        json_text_member(text, "device_id"@),
        json_text_member(text, "device_name"@),
        json_number_member(text, "port"@),
        ip,
        now,
    )
}

/// `device` was seen not long before `now`.
pub open spec fn is_present(device: DiscoveredDevice, now: i64) -> bool {
    now - device.last_seen <= PRESENT_SECS
}

/// Whether the device under a key was seen not long before `now`.
pub open spec fn present_in(devices: Map<Seq<char>, DiscoveredDevice>, now: i64) -> spec_fn(
    Seq<char>,
) -> bool {
    |key: Seq<char>| is_present(devices[key], now)
}

/// The keys of `map` whose devices were seen not long before `now`.
pub open spec fn present_keys(map: &DiscoveryMap, now: i64) -> Seq<Seq<char>> {
    map.keys().filter(present_in(map@, now))
}

/// What each of `list` holds.
pub open spec fn devices(list: Seq<DiscoveredDevice>) -> Seq<DeviceView> {
    list.map_values(|device: DiscoveredDevice| device@)
}

/// `std::str::from_utf8` gives the text that `bytes` encode, where they are
/// valid UTF-8.
#[verifier::external_body]
fn text_of(bytes: &[u8]) -> (text: Option<&str>)
    ensures
        match text {
            Some(found) => valid_utf8(bytes@) && found@ == decode_utf8(bytes@),
            None => !valid_utf8(bytes@),
        },
{
    std::str::from_utf8(bytes).ok()
}

/// The text by which a device announces itself. Whoever reads it finds the id,
/// the name and the port there.
pub fn announcement(device_id: &str, device_name: &str) -> (text: String)
    ensures
        text@ == json_object_text(announced(device_id@, device_name@)),
        announces(text@, device_id@, device_name@, PORT as u64),
{
    let mut object = new_object();
    put_text(&mut object, "device_id", device_id);
    put_text(&mut object, "device_name", device_name);
    put_number(&mut object, "port", PORT as u64);
    proof {
        crate::http::lemma_keys_differ();
    }
    let ghost members = json_members(object);
    assert(members == announced(device_id@, device_name@));
    assert(is_flat(members));
    assert(members["device_id"@] == json_quoted(device_id@));
    assert(members["device_name"@] == json_quoted(device_name@));
    assert(members["port"@] == decimal(PORT as u64 as nat));
    object_text(object)
}

/// Whether a device that announced itself `sent` times in a row does so again.
pub fn next_pulse(sent: usize) -> (again: bool)
    ensures
        again == (sent < PULSES),
{
    sent < PULSES
}

/// Where announcements are sent: to every device of the local network.
pub fn broadcast_target() -> (target: String)
    ensures
        target@ == "255.255.255.255:"@ + decimal(DISCOVERY_PORT as nat),
{
    let mut target = "255.255.255.255:".to_string();
    target.append(crate::number::decimal_text(DISCOVERY_PORT as u64).as_str());
    target
}

/// The device that announced itself, from what its announcement holds.
pub fn announced_device(
    my_device_id: &str,
    device_id: Option<String>,
    device_name: Option<String>,
    port: Option<u64>,
    ip: String,
    now: i64,
) -> (device: Option<DiscoveredDevice>)
    ensures
        device_of(
            my_device_id@,
            crate::text::maybe(device_id),
            crate::text::maybe(device_name),
            port,
            ip@,
            now,
        ) == (match device {
            Some(found) => Some(found@),
            None => None,
        }),
{
    match device_id {
        Some(id) => {
            if id.as_str().is_empty() || same_text(id.as_str(), my_device_id) {
                None
            } else {
                let name = match device_name {
                    Some(given) => given,
                    None => "Unknown".to_string(),
                };
                let at: u16 = match port {
                    Some(given) => (given % 0x1_0000) as u16,
                    None => PORT,
                };
                Some(
                    DiscoveredDevice {
                        device_id: id,
                        device_name: name,
                        ip,
                        port: at,
                        last_seen: now,
                    },
                )
            }
        },
        None => None,
    }
}

/// The device that announced itself by `text`.
pub fn hear_text(my_device_id: &str, text: &str, ip: String, now: i64) -> (device: Option<
    DiscoveredDevice,
>)
    ensures
        heard(my_device_id@, text@, ip@, now) == (match device {
            Some(found) => Some(found@),
            None => None,
        }),
{
    let device_id = read_text_member(text, "device_id");
    let device_name = read_text_member(text, "device_name");
    let port = read_number_member(text, "port");
    announced_device(my_device_id, device_id, device_name, port, ip, now)
}

/// Keeps the device that announced itself by `packet`, under its id, in place
/// of what was known of it. What does not announce another device changes
/// nothing.
pub fn hear_packet(
    discovered: &mut DiscoveryMap,
    my_device_id: &str,
    packet: &[u8],
    ip: String,
    now: i64,
)
    ensures
        valid_utf8(packet@) && heard(my_device_id@, decode_utf8(packet@), ip@, now) is Some ==> {
            let device = heard(my_device_id@, decode_utf8(packet@), ip@, now)->0;
            &&& final(discovered)@.contains_key(device.device_id)
            &&& final(discovered)@[device.device_id]@ == device
            &&& final(discovered)@.remove(device.device_id) == old(discovered)@.remove(
                device.device_id,
            )
        },
        !(valid_utf8(packet@) && heard(my_device_id@, decode_utf8(packet@), ip@, now) is Some)
            ==> *final(discovered) == *old(discovered),
{
    if let Some(text) = text_of(packet) {
        if let Some(device) = hear_text(my_device_id, text, ip, now) {
            let key = device.device_id.clone();
            let ghost before = discovered@;
            discovered.insert(key, device);
            assert(discovered@.remove(key@) =~= before.remove(key@));
        }
    }
}

/// The devices that were seen not long before `now`.
pub fn serve_discovered(discovered: &DiscoveryMap, now: i64) -> (list: Vec<DiscoveredDevice>)
    ensures
        list@ == present_keys(discovered, now).map_values(|key: Seq<char>| discovered@[key]),
        present_keys(discovered, now).no_duplicates(),
        forall|key: Seq<char>| #[trigger]
            present_keys(discovered, now).contains(key) == (discovered@.contains_key(key)
                && is_present(discovered@[key], now)),
{
    let ghost keys = discovered.keys();
    let ghost present = present_in(discovered@, now);
    let mut list: Vec<DiscoveredDevice> = Vec::new();
    assert(keys.take(0).filter(present) =~= Seq::empty()) by {
        reveal(Seq::filter);
    }
    let n = discovered.len();
    for i in 0..n
        invariant
            keys == discovered.keys(),
            n == keys.len(),
            present == present_in(discovered@, now),
            list@ =~= keys.take(i as int).filter(present).map_values(
                |key: Seq<char>| discovered@[key],
            ),
    {
        let (key, device) = discovered.at(i);
        proof {
            assert(keys.take(i + 1) =~= keys.take(i as int).push(key@));
            keys.take(i as int).lemma_filter_push(key@, present);
        }
        if now as i128 - device.last_seen as i128 <= PRESENT_SECS as i128 {
            list.push(device.clone());
        }
    }
    proof {
        assert(keys.take(keys.len() as int) =~= keys);
        assert forall|key: Seq<char>| #[trigger]
            present_keys(discovered, now).contains(key) == (discovered@.contains_key(key)
                && is_present(discovered@[key], now)) by {
            assert(discovered@.contains_key(key) == keys.contains(key));
            if keys.contains(key) && is_present(discovered@[key], now) {
                let i = keys.index_of(key);
                keys.lemma_filter_contains(present, i);
            }
            if present_keys(discovered, now).contains(key) {
                keys.lemma_filter_contains_rev(present, key);
                let i = present_keys(discovered, now).index_of(key);
                keys.lemma_filter_pred(present, i);
            }
        }
        lemma_filter_keeps_apart(keys, present);
    }
    list
}

/// What is left of distinct keys is distinct.
pub proof fn lemma_filter_keeps_apart(keys: Seq<Seq<char>>, kept: spec_fn(Seq<char>) -> bool)
    requires
        keys.no_duplicates(),
    ensures
        keys.filter(kept).no_duplicates(),
    decreases keys.len(),
{
    if keys.len() == 0 {
        assert(keys.filter(kept) =~= keys) by {
            reveal(Seq::filter);
        }
    } else {
        let front = keys.drop_last();
        assert(keys =~= front.push(keys.last()));
        front.lemma_filter_push(keys.last(), kept);
        lemma_filter_keeps_apart(front, kept);
        if front.filter(kept).contains(keys.last()) {
            front.lemma_filter_contains_rev(kept, keys.last());
            let i = front.index_of(keys.last());
            assert(keys[i] == keys[keys.len() - 1]);
        }
    }
}

/// A device that hears an announcement of another one knows it from then on as
/// it announced itself, at the address from which it was heard.
pub proof fn law_announced_device_is_heard(
    my_device_id: Seq<char>,
    text: Seq<char>,
    device_id: Seq<char>,
    device_name: Seq<char>,
    ip: Seq<char>,
    now: i64,
)
    requires
        announces(text, device_id, device_name, PORT as u64),
        device_id.len() > 0,
        device_id != my_device_id,
    ensures
        heard(my_device_id, text, ip, now) == Some(
            (DeviceView { device_id, device_name, ip, port: PORT, last_seen: now }),
        ),
{
}

/// A device never hears itself.
pub proof fn law_own_announcement_is_ignored(
    my_device_id: Seq<char>,
    text: Seq<char>,
    ip: Seq<char>,
    now: i64,
)
    requires
        json_text_member(text, "device_id"@) == Some(my_device_id),
    ensures
        heard(my_device_id, text, ip, now) is None,
{
}

/// A device that was heard counts as present for fifteen seconds.
pub proof fn law_heard_device_is_present(
    my_device_id: Seq<char>,
    text: Seq<char>,
    ip: Seq<char>,
    now: i64,
    device: DiscoveredDevice,
    later: i64,
)
    requires
        heard(my_device_id, text, ip, now) == Some(device@),
    ensures
        is_present(device, later) <==> later - now <= 15,
{
}

/// A device that announced itself is kept with its id, its name or else
/// "Unknown", the address from which it was heard, its port or else 8080, and the
/// time; it is passed over only where it gave no id, an empty one or that of this
/// device.
pub proof fn law_device_is_kept_as_announced(
    my_device_id: Seq<char>,
    text: Seq<char>,
    ip: Seq<char>,
    now: i64,
)
    ensures
        heard(my_device_id, text, ip, now) is Some <==> (json_text_member(
            text,
            "device_id"@,
        ) matches Some(id) && id.len() > 0 && id != my_device_id),
        heard(my_device_id, text, ip, now) matches Some(device) ==> {
            &&& json_text_member(text, "device_id"@) == Some(device.device_id)
            &&& json_text_member(text, "device_name"@) is Some ==> json_text_member(
                text,
                "device_name"@,
            ) == Some(device.device_name)
            &&& json_text_member(text, "device_name"@) is None ==> device.device_name
                == "Unknown"@
            &&& device.ip == ip
            &&& json_number_member(text, "port"@) matches Some(port) ==> device.port == port
                % 0x1_0000
            &&& json_number_member(text, "port"@) is None ==> device.port == 8080
            &&& device.last_seen == now
        },
{
}

/// The same of what an announcement holds, before it is read from a text.
pub proof fn law_device_is_made_of_what_it_gave(
    my_device_id: Seq<char>,
    id: Seq<char>,
    name: Option<Seq<char>>,
    port: Option<u64>,
    ip: Seq<char>,
    now: i64,
)
    ensures
        device_of(my_device_id, None, name, port, ip, now) is None,
        device_of(my_device_id, Some(my_device_id), name, port, ip, now) is None,
        device_of(my_device_id, Some(Seq::empty()), name, port, ip, now) is None,
        id.len() > 0 && id != my_device_id ==> (device_of(
            my_device_id,
            Some(id),
            name,
            port,
            ip,
            now,
        ) matches Some(device) && device.device_id == id && device.ip == ip && device.last_seen
            == now && (name matches Some(given) ==> device.device_name == given) && (name is None
            ==> device.device_name == "Unknown"@) && (port matches Some(given) ==> device.port
            == given % 0x1_0000) && (port is None ==> device.port == 8080)),
{
}

/// An announcement holds the id, the name and the port 8080, and nothing else.
pub proof fn law_announcement_holds_id_name_and_port(
    device_id: Seq<char>,
    device_name: Seq<char>,
    key: Seq<char>,
)
    ensures
        announced(device_id, device_name)["device_id"@] == json_quoted(device_id),
        announced(device_id, device_name)["device_name"@] == json_quoted(device_name),
        announced(device_id, device_name)["port"@] == decimal(8080),
        announced(device_id, device_name).contains_key(key) <==> key == "device_id"@ || key
            == "device_name"@ || key == "port"@,
{
    crate::http::lemma_keys_differ();
}

/// A device is present for fifteen seconds from when it was last seen, and is seen
/// with all that is known of it.
pub proof fn law_device_is_present_for_fifteen_seconds(
    device: DiscoveredDevice,
    now: i64,
    list: Seq<DiscoveredDevice>,
    i: int,
)
    ensures
        is_present(device, now) <==> now - device.last_seen <= 15,
        device@.device_id == device.device_id@,
        device@.device_name == device.device_name@,
        device@.ip == device.ip@,
        device@.port == device.port,
        device@.last_seen == device.last_seen,
        devices(list).len() == list.len(),
        0 <= i < list.len() ==> devices(list)[i] == list[i]@,
{
}

/// The devices that are present are listed in the order in which they came.
pub proof fn law_present_devices_are_listed_in_order(map: &DiscoveryMap, now: i64, n: int)
    requires
        0 <= n <= map.keys().len(),
    ensures
        present_keys(map, now) == map.keys().take(n).filter(
            |key: Seq<char>| now - map@[key].last_seen <= 15,
        ) + map.keys().skip(n).filter(|key: Seq<char>| now - map@[key].last_seen <= 15),
{
    let keys = map.keys();
    let present = |key: Seq<char>| now - map@[key].last_seen <= 15;
    assert(present =~= present_in(map@, now));
    assert(keys =~= keys.take(n) + keys.skip(n));
    Seq::filter_distributes_over_add(keys.take(n), keys.skip(n), present);
}

/// A device announces itself three times in a row, a third of a second apart, and
/// is heard on one port.
pub proof fn law_three_pulses(sent: usize)
    ensures
        sent < PULSES <==> sent == 0 || sent == 1 || sent == 2,
        PULSE_GAP_MS == 300,
        DISCOVERY_PORT == 45679,
{
}

/// A text announces a device exactly where its id, its name and its port read as
/// they should.
pub proof fn law_announcement_reads_member_by_member(
    text: Seq<char>,
    device_id: Seq<char>,
    device_name: Seq<char>,
    port: u64,
)
    ensures
        announces(text, device_id, device_name, port) <==> json_text_member(text, "device_id"@)
            == Some(device_id) && json_text_member(text, "device_name"@) == Some(device_name)
            && json_number_member(text, "port"@) == Some(port),
{
}

} // verus!
