//! What becomes of incoming data messages: each is forwarded once, with its payload decoded.

use crate::decrypt::decrypt;
use crate::decrypt::decrypted;
use crate::error::ErrorView;
use crate::json::json_null;
use crate::json::spells;
use crate::proto::{AppData, DataMessageStanza};
use crate::register::{FcmRegistration, Keys};
use vstd::prelude::*;
use vstd::slice::slice_to_vec;

verus! {

/// How many messages and notifications may be under way.
pub const CHANNEL_CAPACITY: usize = 100;

/// The longest pause before the next attempt to connect, in seconds.
pub const MAX_RECONNECT_DELAY_SECONDS: u64 = 15;

/// An incoming push notification.
#[derive(Debug, Clone)]
pub struct Notification {
    /// Decoded payload bytes, or the raw payload when no decryption keys are available.
    pub decrypted: Vec<u8>,
    /// Stable MCS identifier used to suppress redelivery after reconnecting.
    pub persistent_id: Option<String>,
    /// Key-value metadata attached to the MCS message.
    pub app_data: Vec<AppData>,
    /// Sender timestamp in seconds or milliseconds since the Unix epoch.
    pub sent: Option<i64>,
}

/// How payloads are decoded.
pub enum PayloadMode {
    /// They are decrypted with these keys.
    Decrypt(Keys),
    /// They are forwarded as they are.
    Raw,
}

impl PayloadMode {
    /// A text for logs, which keeps the keys to itself.
    pub fn debug_text(&self) -> (res: String)
        ensures
            res@ == if self is Decrypt {
                "Decrypt(\"<redacted>\")"@
            } else {
                "Raw"@
            },
    {
        match self {
            PayloadMode::Decrypt(_) => "Decrypt(\"<redacted>\")".to_owned(),
            PayloadMode::Raw => "Raw".to_owned(),
        }
    }
}

/// The value of the first entry with this key.
pub open spec fn value_of(app_data: Seq<AppData>, key: Seq<char>) -> Option<Seq<char>>
    decreases app_data.len(),
{
    if app_data.len() == 0 {
        None
    } else if app_data[0].key@ == key {
        Some(app_data[0].value@)
    } else {
        value_of(app_data.skip(1), key)
    }
}

/// The value is that of the first entry with the key, and there is none exactly where no entry has
/// it.
pub proof fn value_is_that_of_the_first_entry(app_data: Seq<AppData>, key: Seq<char>)
    ensures
        match value_of(app_data, key) {
            Some(value) => exists|i: int|
                0 <= i < app_data.len() && (#[trigger] app_data[i]).key@ == key && app_data[i].value@
                    == value && forall|j: int|
                    0 <= j < i ==> (#[trigger] app_data[j]).key@ != key,
            None => forall|i: int| 0 <= i < app_data.len() ==> (#[trigger] app_data[i]).key@ != key,
        },
    decreases app_data.len(),
{
    if app_data.len() > 0 && app_data[0].key@ != key {
        let rest = app_data.skip(1);
        value_is_that_of_the_first_entry(rest, key);
        match value_of(rest, key) {
            Some(value) => {
                let k = choose|i: int|
                    0 <= i < rest.len() && (#[trigger] rest[i]).key@ == key && rest[i].value@
                        == value && forall|j: int|
                        0 <= j < i ==> (#[trigger] rest[j]).key@ != key;
                assert(app_data[k + 1] == rest[k]);
                assert forall|j: int| 0 <= j < k + 1 implies (#[trigger] app_data[j]).key@
                    != key by {
                    if j > 0 {
                        assert(app_data[j] == rest[j - 1]);
                    }
                }
            },
            None => {
                assert forall|i: int| 0 <= i < app_data.len() implies (#[trigger] app_data[i]).key@
                    != key by {
                    if i > 0 {
                        assert(app_data[i] == rest[i - 1]);
                    }
                }
            },
        }
    }
}

/// An entry is found where it stands, if none before it has its key.
pub proof fn first_entry_is_found(app_data: Seq<AppData>, at: int)
    requires
        0 <= at < app_data.len(),
        forall|j: int| 0 <= j < at ==> (#[trigger] app_data[j]).key@ != app_data[at].key@,
    ensures
        value_of(app_data, app_data[at].key@) == Some(app_data[at].value@),
{
    value_is_that_of_the_first_entry(app_data, app_data[at].key@);
}

/// Looks up the value that travels under `key` with a message; the first, where there are several.
pub fn app_data_value<'a>(message: &'a DataMessageStanza, key: &str) -> (res: Option<&'a str>)
    ensures
        match res {
            Some(value) => value_of(message.app_data@, key@) == Some(value@),
            None => value_of(message.app_data@, key@) is None,
        },
        res is None ==> forall|i: int|
            0 <= i < message.app_data@.len() ==> (#[trigger] message.app_data@[i]).key@ != key@,
{
    proof {
        value_is_that_of_the_first_entry(message.app_data@, key@);
    }
    let wanted = key.to_owned();
    let mut at: usize = 0;
    assert(message.app_data@.skip(0) =~= message.app_data@);
    while at < message.app_data.len()
        invariant
            at <= message.app_data@.len(),
            wanted@ == key@,
            value_of(message.app_data@, key@) == value_of(
                message.app_data@.skip(at as int),
                key@,
            ),
        decreases message.app_data@.len() - at,
    {
        let ghost rest = message.app_data@.skip(at as int);
        assert(rest[0] == message.app_data@[at as int]);
        assert(rest.skip(1) =~= message.app_data@.skip(at + 1));
        if message.app_data[at].key == wanted {
            return Some(message.app_data[at].value.as_str());
        }
        at += 1;
    }
    None
}

/// The payload of an encrypted message: without metadata the raw data themselves, else what
/// decryption finds in them, if it succeeds.
pub open spec fn encrypted_payload(
    app_data: Seq<AppData>,
    raw_data: Seq<u8>,
    keys: Keys,
) -> Option<Seq<u8>> {
    if app_data.len() == 0 {
        Some(raw_data)
    } else {
        match (value_of(app_data, "crypto-key"@), value_of(app_data, "encryption"@)) {
            (Some(crypto_key), Some(salt)) => match decrypted(
                crypto_key,
                salt,
                keys.auth_secret@,
                keys.private_key@,
                raw_data,
            ) {
                Ok(payload) => Some(payload),
                Err(_) => None,
            },
            _ => None,
        }
    }
}

/// The payload of a message.
pub open spec fn payload(message: DataMessageStanza, mode: PayloadMode) -> Option<Seq<u8>> {
    match mode {
        PayloadMode::Raw => Some(
            match message.raw_data {
                Some(raw_data) => raw_data@,
                None => Seq::<u8>::empty(),
            },
        ),
        PayloadMode::Decrypt(keys) => match message.raw_data {
            Some(raw_data) => encrypted_payload(message.app_data@, raw_data@, keys),
            None => None,
        },
    }
}

/// Whether `result` holds what `meant` holds.
pub open spec fn holds(result: Option<Vec<u8>>, meant: Option<Seq<u8>>) -> bool {
    match meant {
        Some(bytes) => result matches Some(found) && found@ == bytes,
        None => result is None,
    }
}

/// Decodes the payload of a message. Without keys the raw data are forwarded as they are, and a
/// message that carries all it has in its metadata has an empty payload.
pub fn decode_payload(message: &DataMessageStanza, mode: &PayloadMode) -> (res: Option<Vec<u8>>)
    ensures
        holds(res, payload(*message, *mode)),
        match payload(*message, *mode) {
            Some(bytes) => res matches Some(found) && found@ == bytes,
            None => res is None,
        },
        mode is Raw ==> (res matches Some(found) && match message.raw_data {
            Some(raw_data) => found@ == raw_data@,
            None => found@.len() == 0,
        }),
        mode is Decrypt && message.raw_data is None ==> res is None,
{
    match mode {
        PayloadMode::Raw => match &message.raw_data {
            Some(raw_data) => Some(slice_to_vec(raw_data.as_slice())),
            None => Some(Vec::new()),
        },
        PayloadMode::Decrypt(keys) => match &message.raw_data {
            Some(raw_data) => decode_encrypted_payload(message, raw_data.as_slice(), keys),
            None => None,
        },
    }
}

/// Decodes the payload of an encrypted message, whose metadata name the sender's key under
/// `crypto-key` and the salt under `encryption`.
pub fn decode_encrypted_payload(
    message: &DataMessageStanza,
    raw_data: &[u8],
    keys: &Keys,
) -> (res: Option<Vec<u8>>)
    ensures
        holds(res, encrypted_payload(message.app_data@, raw_data@, *keys)),
        match encrypted_payload(message.app_data@, raw_data@, *keys) {
            Some(bytes) => res matches Some(found) && found@ == bytes,
            None => res is None,
        },
        message.app_data@.len() == 0 ==> (res matches Some(found) && found@ == raw_data@),
{
    if message.app_data.len() == 0 {
        return Some(slice_to_vec(raw_data));
    }
    let crypto_key = match app_data_value(message, "crypto-key") {
        Some(value) => value,
        None => {
            return None;
        },
    };
    let salt = match app_data_value(message, "encryption") {
        Some(value) => value,
        None => {
            return None;
        },
    };
    match decrypt(
        crypto_key,
        salt,
        keys.auth_secret.as_str(),
        keys.private_key.as_str(),
        raw_data,
    ) {
        Ok(payload) => Some(payload),
        Err(_) => None,
    }
}

/// Without keys the payload is the raw data, all of them, or empty where there are none.
pub proof fn raw_payload_is_the_raw_data(message: DataMessageStanza)
    ensures
        message.raw_data matches Some(raw_data) ==> payload(message, PayloadMode::Raw) == Some(
            raw_data@,
        ),
        message.raw_data is None ==> payload(message, PayloadMode::Raw) == Some(Seq::<u8>::empty()),
{
}

/// With keys the payload is what decryption finds in the raw data, with the first value under
/// `crypto-key` and the first under `encryption`; there is none where decryption fails, where one of
/// the two is missing, or where there are no raw data. Without any metadata it is the raw data.
pub proof fn encrypted_payload_is_what_decryption_finds(message: DataMessageStanza, keys: Keys)
    ensures
        ({
            let found = payload(message, PayloadMode::Decrypt(keys));
            let crypto_key = value_of(message.app_data@, "crypto-key"@);
            let salt = value_of(message.app_data@, "encryption"@);
            &&& message.raw_data is None ==> found is None
            &&& message.raw_data matches Some(raw_data) ==> {
                &&& message.app_data@.len() == 0 ==> found == Some(raw_data@)
                &&& message.app_data@.len() > 0 && (crypto_key is None || salt is None) ==> found
                    is None
                &&& message.app_data@.len() > 0 && crypto_key is Some && salt is Some ==> (match found {
                    Some(bytes) => decrypted(
                        crypto_key->0,
                        salt->0,
                        keys.auth_secret@,
                        keys.private_key@,
                        raw_data@,
                    ) == Ok::<Seq<u8>, ErrorView>(bytes),
                    None => decrypted(
                        crypto_key->0,
                        salt->0,
                        keys.auth_secret@,
                        keys.private_key@,
                        raw_data@,
                    ) is Err,
                })
            }
        }),
{
}

/// The texts of identifiers.
pub open spec fn id_texts(ids: Seq<String>) -> Seq<Seq<char>> {
    ids.map_values(|id: String| id@)
}

/// The texts of identifiers are theirs, one by one.
pub proof fn id_texts_hold_all_texts(ids: Seq<String>)
    ensures
        id_texts(ids).len() == ids.len(),
        forall|i: int| 0 <= i < ids.len() ==> #[trigger] id_texts(ids)[i] == ids[i]@,
{
}

/// Whether a message with this identifier was seen before.
pub open spec fn is_seen(message: DataMessageStanza, ids: Seq<Seq<char>>) -> bool {
    message.persistent_id matches Some(id) && ids.contains(id@)
}

/// The identifiers that were seen, once a message was.
pub open spec fn ids_after(message: DataMessageStanza, ids: Seq<Seq<char>>) -> Seq<Seq<char>> {
    match message.persistent_id {
        Some(id) => if ids.contains(id@) {
            ids
        } else {
            ids.push(id@)
        },
        None => ids,
    }
}

/// Tells whether a message with this identifier was seen before, and remembers the identifier if
/// not. A message without an identifier is never a duplicate.
pub fn is_duplicate(message: &DataMessageStanza, persistent_ids: &mut Vec<String>) -> (res: bool)
    ensures
        res == is_seen(*message, id_texts(old(persistent_ids)@)),
        id_texts(final(persistent_ids)@) == ids_after(*message, id_texts(old(persistent_ids)@)),
        res == (message.persistent_id matches Some(id) && exists|i: int|
            0 <= i < old(persistent_ids)@.len() && (#[trigger] old(persistent_ids)@[i])@ == id@),
        res || message.persistent_id is None ==> final(persistent_ids)@ == old(persistent_ids)@,
        !res && message.persistent_id is Some ==> {
            &&& final(persistent_ids)@.len() == old(persistent_ids)@.len() + 1
            &&& final(persistent_ids)@.drop_last() == old(persistent_ids)@
            &&& final(persistent_ids)@.last()@ == message.persistent_id->0@
        },
{
    let id = match &message.persistent_id {
        Some(id) => id,
        None => {
            return false;
        },
    };
    let mut at: usize = 0;
    while at < persistent_ids.len()
        invariant
            message.persistent_id == Some(*id),
            *persistent_ids == *old(persistent_ids),
            at <= persistent_ids@.len(),
            forall|i: int| 0 <= i < at ==> (#[trigger] persistent_ids@[i])@ != id@,
        decreases persistent_ids@.len() - at,
    {
        if persistent_ids[at] == *id {
            assert(id_texts(persistent_ids@)[at as int] == id@);
            assert(old(persistent_ids)@[at as int]@ == id@);
            return true;
        }
        at += 1;
    }
    assert forall|i: int| 0 <= i < persistent_ids@.len() implies #[trigger] id_texts(
        persistent_ids@,
    )[i] != id@ by {
        assert(persistent_ids@[i]@ != id@);
    }
    persistent_ids.push(id.clone());
    assert(id_texts(persistent_ids@) =~= id_texts(old(persistent_ids)@).push(id@));
    assert(persistent_ids@.drop_last() =~= old(persistent_ids)@);
    false
}

/// Whether `result` is the notification of a message, where it has a payload.
pub open spec fn notifies(
    result: Option<Notification>,
    message: DataMessageStanza,
    mode: PayloadMode,
) -> bool {
    match payload(message, mode) {
        Some(bytes) => {
            &&& result matches Some(notification)
            &&& notification.decrypted@ == bytes
            &&& notification.persistent_id == message.persistent_id
            &&& notification.app_data == message.app_data
            &&& notification.sent == message.sent
        },
        None => result is None,
    }
}

/// Makes the notification of a message; there is none where the payload cannot be decoded.
pub fn notification_of(message: DataMessageStanza, mode: &PayloadMode) -> (res: Option<Notification>)
    ensures
        notifies(res, message, *mode),
        match payload(message, *mode) {
            Some(bytes) => res matches Some(notification) && notification.decrypted@ == bytes
                && notification.persistent_id == message.persistent_id && notification.app_data
                == message.app_data && notification.sent == message.sent,
            None => res is None,
        },
{
    match decode_payload(&message, mode) {
        Some(decrypted) => Some(
            Notification {
                decrypted,
                persistent_id: message.persistent_id,
                app_data: message.app_data,
                sent: message.sent,
            },
        ),
        None => None,
    }
}

/// Decides what becomes of a message: a duplicate, or a message whose payload cannot be decoded, is
/// dropped, and every other is forwarded.
pub fn forward(
    message: DataMessageStanza,
    persistent_ids: &mut Vec<String>,
    mode: &PayloadMode,
) -> (res: Option<Notification>)
    ensures
        id_texts(final(persistent_ids)@) == ids_after(message, id_texts(old(persistent_ids)@)),
        if is_seen(message, id_texts(old(persistent_ids)@)) {
            res is None
        } else {
            notifies(res, message, *mode)
        },
        res is Some <==> !(message.persistent_id matches Some(id) && exists|i: int|
            0 <= i < old(persistent_ids)@.len() && (#[trigger] old(persistent_ids)@[i])@ == id@)
            && payload(message, *mode) is Some,
        res matches Some(notification) ==> payload(message, *mode) == Some(
            notification.decrypted@,
        ) && notification.persistent_id == message.persistent_id && notification.app_data
            == message.app_data && notification.sent == message.sent,
{
    if is_duplicate(&message, persistent_ids) {
        return None;
    }
    notification_of(message, mode)
}

/// The identifiers that were seen, once a run of messages was.
pub open spec fn ids_after_all(
    messages: Seq<DataMessageStanza>,
    ids: Seq<Seq<char>>,
) -> Seq<Seq<char>>
    decreases messages.len(),
{
    if messages.len() == 0 {
        ids
    } else {
        ids_after(messages.last(), ids_after_all(messages.drop_last(), ids))
    }
}

/// A message is held for a duplicate exactly where it has an identifier and that very identifier is
/// among those that are remembered.
pub proof fn duplicate_has_a_remembered_id(message: DataMessageStanza, ids: Seq<Seq<char>>)
    ensures
        is_seen(message, ids) <==> (message.persistent_id matches Some(id) && exists|i: int|
            0 <= i < ids.len() && #[trigger] ids[i] == id@),
{
}

/// A message leaves the remembered identifiers as they are, but that its own is added at the end
/// where it is new.
pub proof fn own_id_is_remembered(message: DataMessageStanza, ids: Seq<Seq<char>>)
    ensures
        message.persistent_id is None ==> ids_after(message, ids) == ids,
        message.persistent_id matches Some(id) ==> ids_after(message, ids).contains(id@),
        message.persistent_id matches Some(id) ==> (exists|i: int|
            0 <= i < ids.len() && #[trigger] ids[i] == id@) ==> ids_after(message, ids) == ids,
        message.persistent_id matches Some(id) ==> (forall|i: int|
            0 <= i < ids.len() ==> #[trigger] ids[i] != id@) ==> ids_after(message, ids) == ids
            + seq![id@],
{
    if message.persistent_id is Some {
        let id = message.persistent_id->0@;
        if !ids.contains(id) {
            assert(ids.push(id) =~= ids + seq![id]);
            assert(ids.push(id)[ids.len() as int] == id);
        }
    }
}

/// Identifiers, once seen, stay so.
pub proof fn seen_ids_stay_seen(
    messages: Seq<DataMessageStanza>,
    ids: Seq<Seq<char>>,
    id: Seq<char>,
)
    requires
        ids.contains(id),
    ensures
        ids_after_all(messages, ids).contains(id),
    decreases messages.len(),
{
    if messages.len() > 0 {
        seen_ids_stay_seen(messages.drop_last(), ids, id);
        lemma_ids_after_keeps(
            messages.last(),
            ids_after_all(messages.drop_last(), ids),
            id,
        );
    }
}

proof fn lemma_ids_after_keeps(message: DataMessageStanza, ids: Seq<Seq<char>>, id: Seq<char>)
    requires
        ids.contains(id),
    ensures
        ids_after(message, ids).contains(id),
{
    let i = choose|i: int| 0 <= i < ids.len() && ids[i] == id;
    assert(ids_after(message, ids)[i] == id);
}

/// Of the messages with one identifier, at most the first is forwarded; and none is, where the
/// identifier was processed before.
pub proof fn no_message_is_forwarded_twice(
    messages: Seq<DataMessageStanza>,
    ids: Seq<Seq<char>>,
    earlier: int,
    later: int,
)
    requires
        0 <= later < messages.len(),
        messages[later].persistent_id matches Some(id) && (ids.contains(id@) || (0 <= earlier
            < later && (messages[earlier].persistent_id matches Some(first) && first@ == id@))),
    ensures
        is_seen(messages[later], ids_after_all(messages.take(later), ids)),
{
    let id = messages[later].persistent_id->0@;
    if ids.contains(id) {
        seen_ids_stay_seen(messages.take(later), ids, id);
    } else {
        lemma_id_is_remembered(messages.take(later), ids, earlier);
        assert(messages.take(later)[earlier] == messages[earlier]);
    }
}

proof fn lemma_id_is_remembered(
    messages: Seq<DataMessageStanza>,
    ids: Seq<Seq<char>>,
    at: int,
)
    requires
        0 <= at < messages.len(),
        messages[at].persistent_id is Some,
    ensures
        ids_after_all(messages, ids).contains(messages[at].persistent_id->0@),
    decreases messages.len(),
{
    let before = ids_after_all(messages.drop_last(), ids);
    let id = messages[at].persistent_id->0@;
    if at == messages.len() - 1 {
        if !before.contains(id) {
            assert(ids_after(messages.last(), before)[before.len() as int] == id);
        }
    } else {
        lemma_id_is_remembered(messages.drop_last(), ids, at);
        assert(messages.drop_last()[at] == messages[at]);
        lemma_ids_after_keeps(messages.last(), before, id);
    }
}

/// A message is held for a duplicate only where its identifier was processed before, or came with an
/// earlier message.
pub proof fn only_duplicates_are_dropped(
    messages: Seq<DataMessageStanza>,
    ids: Seq<Seq<char>>,
    id: Seq<char>,
)
    requires
        ids_after_all(messages, ids).contains(id),
    ensures
        ids.contains(id) || exists|i: int|
            0 <= i < messages.len() && ((#[trigger] messages[i]).persistent_id matches Some(text)
                && text@ == id),
    decreases messages.len(),
{
    if messages.len() > 0 {
        let earlier = messages.drop_last();
        let before = ids_after_all(earlier, ids);
        if before.contains(id) {
            only_duplicates_are_dropped(earlier, ids, id);
            if !ids.contains(id) {
                let i = choose|i: int|
                    0 <= i < earlier.len() && ((#[trigger] earlier[i]).persistent_id matches Some(
                        text,
                    ) && text@ == id);
                assert(messages[i] == earlier[i]);
            }
        } else {
            let after = ids_after(messages.last(), before);
            let i = choose|i: int| 0 <= i < after.len() && after[i] == id;
            if i < before.len() {
                assert(before[i] == id);
            }
            let last = messages.len() - 1;
            assert(messages[last].persistent_id matches Some(text) && text@ == id);
        }
    }
}

/// In a run of messages, one is held for a duplicate exactly where its identifier was processed before
/// the run or came with an earlier message of it.
pub proof fn duplicates_in_a_run(
    messages: Seq<DataMessageStanza>,
    ids: Seq<Seq<char>>,
    at: int,
)
    requires
        0 <= at < messages.len(),
    ensures
        is_seen(messages[at], ids_after_all(messages.take(at), ids)) <==> (
        messages[at].persistent_id matches Some(id) && (ids.contains(id@) || exists|i: int|
            0 <= i < at && ((#[trigger] messages[i]).persistent_id matches Some(earlier) && earlier@
                == id@))),
{
    if messages[at].persistent_id is Some {
        let id = messages[at].persistent_id->0@;
        let before = messages.take(at);
        if is_seen(messages[at], ids_after_all(before, ids)) && !ids.contains(id) {
            only_duplicates_are_dropped(before, ids, id);
            let i = choose|i: int|
                0 <= i < before.len() && ((#[trigger] before[i]).persistent_id matches Some(text)
                    && text@ == id);
            assert(messages[i] == before[i]);
        }
        if ids.contains(id) {
            no_message_is_forwarded_twice(messages, ids, 0, at);
        } else if exists|i: int|
            0 <= i < at && ((#[trigger] messages[i]).persistent_id matches Some(earlier) && earlier@
                == id) {
            let i = choose|i: int|
                0 <= i < at && ((#[trigger] messages[i]).persistent_id matches Some(earlier)
                    && earlier@ == id);
            no_message_is_forwarded_twice(messages, ids, i, at);
        }
    }
}

/// No identifier is remembered twice.
pub proof fn ids_stay_distinct(message: DataMessageStanza, ids: Seq<Seq<char>>)
    requires
        ids.no_duplicates(),
    ensures
        ids_after(message, ids).no_duplicates(),
{
    if message.persistent_id is Some {
        let id = message.persistent_id->0@;
        if !ids.contains(id) {
            assert forall|i: int, j: int|
                0 <= i < ids.push(id).len() && 0 <= j < ids.push(id).len() && i != j implies ids.push(
                id,
            )[i] != ids.push(id)[j] by {
                if i < ids.len() {
                    assert(ids[i] == ids.push(id)[i]);
                    assert(ids.contains(ids[i]));
                }
                if j < ids.len() {
                    assert(ids[j] == ids.push(id)[j]);
                    assert(ids.contains(ids[j]));
                }
            }
        }
    }
}

/// Without keys, every message that is no duplicate is forwarded.
pub proof fn raw_messages_always_have_a_payload(message: DataMessageStanza)
    ensures
        payload(message, PayloadMode::Raw) is Some,
{
}

/// The registration that stands for an identity from an earlier check-in: it has no token and no
/// keys.
pub fn existing_registration(android_id: u64, security_token: u64) -> (res: FcmRegistration)
    ensures
        res.token@ == Seq::<char>::empty(),
        res.android_id == android_id,
        res.security_token == security_token,
        res.app_id@ == Seq::<char>::empty(),
        res.keys.private_key@ == Seq::<char>::empty(),
        res.keys.public_key@ == Seq::<char>::empty(),
        res.keys.auth_secret@ == Seq::<char>::empty(),
        spells("null"@, res.fcm),
{
    FcmRegistration {
        token: String::new(),
        android_id,
        security_token,
        app_id: String::new(),
        keys: Keys {
            private_key: String::new(),
            public_key: String::new(),
            auth_secret: String::new(),
        },
        fcm: json_null(),
    }
}

/// The next attempt to connect.
#[derive(Debug, Clone, Copy)]
pub struct Reconnect {
    /// How many attempts there were, this one included.
    pub retry_count: u64,
    /// The pause before it, in seconds.
    pub delay_seconds: u64,
}

/// How many attempts there were, with one more.
pub open spec fn next_count(retry_count: u64) -> u64 {
    if retry_count < u64::MAX {
        (retry_count + 1) as u64
    } else {
        u64::MAX
    }
}

/// The pause before an attempt, in seconds: one more each time, up to a limit.
pub open spec fn reconnect_delay(retry_count: u64) -> u64 {
    if retry_count < MAX_RECONNECT_DELAY_SECONDS {
        retry_count
    } else {
        MAX_RECONNECT_DELAY_SECONDS
    }
}

/// Decides what follows the end of a connection: nothing, where the consumer is gone, and else
/// another attempt after a pause.
pub fn after_disconnect(retry_count: u64, consumer_gone: bool) -> (res: Option<Reconnect>)
    ensures
        if consumer_gone {
            res is None
        } else {
            res matches Some(reconnect) && reconnect.retry_count == next_count(retry_count)
                && reconnect.delay_seconds == reconnect_delay(next_count(retry_count))
        },
        consumer_gone <==> res is None,
        res matches Some(reconnect) ==> reconnect.retry_count == (if retry_count < u64::MAX {
            retry_count + 1
        } else {
            retry_count as int
        }) && reconnect.delay_seconds == if reconnect.retry_count < 15 {
            reconnect.retry_count
        } else {
            15
        },
{
    if consumer_gone {
        return None;
    }
    let retry_count: u64 = if retry_count < u64::MAX {
        retry_count + 1
    } else {
        u64::MAX
    };
    let delay_seconds: u64 = if retry_count < MAX_RECONNECT_DELAY_SECONDS {
        retry_count
    } else {
        MAX_RECONNECT_DELAY_SECONDS
    };
    Some(Reconnect { retry_count, delay_seconds })
}

/// The count after `attempts` attempts, from none on.
pub open spec fn count_after(attempts: nat) -> u64
    decreases attempts,
{
    if attempts == 0 {
        0
    } else {
        next_count(count_after((attempts - 1) as nat))
    }
}

/// The pause before the `attempts`-th attempt is that many seconds, up to fifteen; so it is never
/// nothing, and never gets shorter.
pub proof fn pauses_grow_to_a_limit(attempts: nat)
    ensures
        count_after(attempts) == if attempts <= u64::MAX {
            attempts as int
        } else {
            u64::MAX as int
        },
        attempts > 0 ==> 1 <= reconnect_delay(count_after(attempts)) <= MAX_RECONNECT_DELAY_SECONDS,
        reconnect_delay(count_after(attempts)) <= reconnect_delay(count_after(attempts + 1)),
        attempts <= MAX_RECONNECT_DELAY_SECONDS ==> reconnect_delay(count_after(attempts))
            == attempts,
    decreases attempts,
{
    if attempts > 0 {
        pauses_grow_to_a_limit((attempts - 1) as nat);
    }
}

} // verus!
