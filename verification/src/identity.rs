//! Who this device is.

use vstd::prelude::*;

use crate::number::{digit, digit_char, is_hex_digit};

verus! {

/// The identity of a device: its id, the name it shows, and the secret by which
/// other devices are let in.
pub struct DeviceConfig {
    pub device_id: String,
    pub device_name: String,
    pub secret: String,
}

/// `text` is a random (version 4) UUID, written with hyphens in lower case.
pub open spec fn is_random_uuid(text: Seq<char>) -> bool {
    &&& text.len() == 36
    &&& text[8] == '-' && text[13] == '-' && text[18] == '-' && text[23] == '-'
    &&& text[14] == '4'
    &&& text[19] == '8' || text[19] == '9' || text[19] == 'a' || text[19] == 'b'
    &&& forall|i: int|
        0 <= i < 36 && i != 8 && i != 13 && i != 18 && i != 23 ==> is_hex_digit(
            #[trigger] text[i],
        )
}

/// `text` is a secret: 32 digits of base 16.
pub open spec fn is_secret(text: Seq<char>) -> bool {
    text.len() == 32 && forall|i: int| 0 <= i < 32 ==> is_hex_digit(#[trigger] text[i])
}

/// `rand::Rng::gen_range` draws a number below `bound`. Which one is left to
/// chance; there is none below zero, and the call would panic.
#[verifier::external_body]
fn random_below(bound: u8) -> (n: u8)
    requires
        bound > 0,
    ensures
        n < bound,
{
    rand::Rng::gen_range(&mut rand::thread_rng(), 0..bound)
}

/// `uuid::Uuid::new_v4` draws a random UUID.
#[verifier::external_body]
fn random_uuid() -> (text: String)
    ensures
        is_random_uuid(text@),
{
    uuid::Uuid::new_v4().to_string()
}

/// The digits of base 16 that stand for `draws`, in order.
pub open spec fn drawn(draws: Seq<u8>) -> Seq<char> {
    draws.map_values(|d: u8| digit(d as int))
}

/// The secret that the numbers `draws` make: a digit for each of them.
pub fn secret_of(draws: &Vec<u8>) -> (secret: String)
    requires
        forall|i: int| 0 <= i < draws@.len() ==> (#[trigger] draws@[i]) < 16,
    ensures
        secret@ == drawn(draws@),
        draws@.len() == 32 ==> is_secret(secret@),
{
    let mut secret = String::new();
    for i in 0..draws.len()
        invariant
            forall|j: int| 0 <= j < draws@.len() ==> (#[trigger] draws@[j]) < 16,
            secret@ =~= drawn(draws@.take(i as int)),
            forall|j: int| 0 <= j < i ==> is_hex_digit(#[trigger] secret@[j]),
    {
        let d = draws[i];
        secret.push(digit_char(d));
        assert(draws@.take(i + 1) =~= draws@.take(i as int).push(d));
    }
    assert(draws@.take(draws@.len() as int) =~= draws@);
    secret
}

/// A new secret, made of 32 numbers that are drawn below 16.
pub fn generate_secret() -> (secret: String)
    ensures
        is_secret(secret@),
{
    let mut draws: Vec<u8> = Vec::new();
    for i in 0..32
        invariant
            draws@.len() == i,
            forall|j: int| 0 <= j < i ==> (#[trigger] draws@[j]) < 16,
    {
        draws.push(random_below(16));
    }
    secret_of(&draws)
}

/// The name that a device shows: that of the computer, where it is known.
pub fn whoami_hostname(computer_name: Option<String>) -> (name: String)
    ensures
        name@ == (match computer_name {
            Some(known) => known@,
            None => "unknown-device"@,
        }),
{
    match computer_name {
        Some(known) => known,
        None => "unknown-device".to_string(),
    }
}

/// The identity of this device: `saved`, where it could be read, else a new
/// one. Also says whether it is new, and so has to be saved.
pub fn load_or_create_device_config(
    saved: Option<DeviceConfig>,
    computer_name: Option<String>,
) -> (found: (DeviceConfig, bool))
    ensures
        match saved {
            Some(config) => found.0 == config && !found.1,
            None => {
                &&& is_random_uuid(found.0.device_id@)
                &&& found.0.device_name@ == (match computer_name {
                    Some(known) => known@,
                    None => "unknown-device"@,
                })
                &&& is_secret(found.0.secret@)
                &&& found.1
            },
        },
{
    match saved {
        Some(config) => (config, false),
        None => {
            let device_id = random_uuid();
            let device_name = whoami_hostname(computer_name);
            let secret = generate_secret();
            (DeviceConfig { device_id, device_name, secret }, true)
        },
    }
}

/// A secret has 32 characters, each a digit or a letter from a to f, and each
/// number that is drawn gives one of them.
pub proof fn law_secret_spells_the_draws(text: Seq<char>, draws: Seq<u8>, i: int)
    ensures
        is_secret(text) <==> text.len() == 32 && forall|i: int|
            0 <= i < 32 ==> '0' <= #[trigger] text[i] <= '9' || 'a' <= text[i] <= 'f',
        drawn(draws).len() == draws.len(),
        0 <= i < draws.len() && draws[i] < 10 ==> drawn(draws)[i] as int == '0' as int + draws[i],
        0 <= i < draws.len() && 10 <= draws[i] < 16 ==> drawn(draws)[i] as int == 'a' as int
            + draws[i] - 10,
{
    if 0 <= i < draws.len() {
        crate::number::law_digits_follow_each_other(draws[i] as int);
    }
    if is_secret(text) {
        assert forall|i: int| 0 <= i < 32 implies '0' <= #[trigger] text[i] <= '9' || 'a'
            <= text[i] <= 'f' by {
            assert(is_hex_digit(text[i]));
        }
    }
    if text.len() == 32 && forall|i: int|
        0 <= i < 32 ==> '0' <= #[trigger] text[i] <= '9' || 'a' <= text[i] <= 'f' {
        assert(forall|i: int| 0 <= i < 32 ==> is_hex_digit(#[trigger] text[i]));
    }
}

/// A random UUID is written in five groups of digits of base 16, parted by
/// hyphens.
pub proof fn law_uuid_is_written_in_groups(text: Seq<char>, i: int)
    requires
        is_random_uuid(text),
        0 <= i < 36,
    ensures
        text.len() == 36,
        text[i] == '-' <==> i == 8 || i == 13 || i == 18 || i == 23,
        text[i] != '-' ==> '0' <= text[i] <= '9' || 'a' <= text[i] <= 'f',
        text[14] == '4',
        text[19] == '8' || text[19] == '9' || text[19] == 'a' || text[19] == 'b',
{
    if i != 8 && i != 13 && i != 18 && i != 23 {
        assert(is_hex_digit(text[i]));
    }
}

} // verus!
