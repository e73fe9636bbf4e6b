//! Requests with a form, as lists of names and values.

use crate::text::{concat, decimal_text};
use crate::text::{decimal, decimal_writes_number, writes_number};
use vstd::prelude::*;

verus! {

/// The texts of a list of names and values.
pub open spec fn pairs(list: Seq<(String, String)>) -> Seq<(Seq<char>, Seq<char>)> {
    list.map_values(|pair: (String, String)| (pair.0@, pair.1@))
}

/// The texts of a list are those of its names and values, one by one.
pub proof fn pairs_hold_all_texts(list: Seq<(String, String)>)
    ensures
        pairs(list).len() == list.len(),
        forall|i: int|
            0 <= i < list.len() ==> #[trigger] pairs(list)[i] == ((list[i].0)@, (list[i].1)@),
{
}

/// Appends a name and a value.
pub fn append_pair(list: &mut Vec<(String, String)>, name: &str, value: &str)
    ensures
        pairs(final(list)@) == pairs(old(list)@).push((name@, value@)),
        final(list)@.len() == old(list)@.len() + 1,
        final(list)@.drop_last() == old(list)@,
        (final(list)@.last().0)@ == name@,
        (final(list)@.last().1)@ == value@,
{
    list.push((name.to_owned(), value.to_owned()));
    assert(pairs(list@) =~= pairs(old(list)@).push((name@, value@)));
    assert(list@.drop_last() =~= old(list)@);
}

/// An empty list.
pub fn no_pairs() -> (res: Vec<(String, String)>)
    ensures
        pairs(res@) == Seq::<(Seq<char>, Seq<char>)>::empty(),
        res@.len() == 0,
{
    let list: Vec<(String, String)> = Vec::new();
    assert(pairs(list@) =~= Seq::<(Seq<char>, Seq<char>)>::empty());
    list
}

/// A request that posts a form.
#[derive(Debug, Clone)]
pub struct FormRequest {
    /// Where it goes.
    pub url: String,
    /// Its `Authorization` header, if it has one.
    pub authorization: Option<String>,
    /// The fields of the form, in order.
    pub form: Vec<(String, String)>,
}

/// The `Authorization` header of a device.
pub open spec fn device_authorization(android_id: u64, security_token: u64) -> Seq<char> {
    "AidLogin "@ + decimal(android_id as nat) + ":"@ + decimal(security_token as nat)
}

/// The `Authorization` header names the device and its token in full: no two devices share one.
pub proof fn authorization_names_device_and_token(android_id: u64, security_token: u64)
    ensures
        ({
            let header = device_authorization(android_id, security_token);
            let id = decimal(android_id as nat).len() as int;
            let token = decimal(security_token as nat).len() as int;
            &&& header.len() == 10 + id + token
            &&& header.take(9) == "AidLogin "@
            &&& writes_number(header.subrange(9, 9 + id), android_id as nat, 10)
            &&& header[9 + id] == ':'
            &&& writes_number(header.skip(10 + id), security_token as nat, 10)
        }),
{
    let header = device_authorization(android_id, security_token);
    let id = decimal(android_id as nat);
    let token = decimal(security_token as nat);
    reveal_strlit("AidLogin ");
    reveal_strlit(":");
    decimal_writes_number(android_id as nat);
    decimal_writes_number(security_token as nat);
    assert(header.take(9) =~= "AidLogin "@);
    assert(header.subrange(9, 9 + id.len() as int) =~= id);
    assert(header.skip(10 + id.len() as int) =~= token);
}

/// The `Authorization` header of a device.
pub fn auth_header(android_id: u64, security_token: u64) -> (res: String)
    ensures
        res@ == device_authorization(android_id, security_token),
        res@ == "AidLogin "@ + decimal(android_id as nat) + ":"@ + decimal(security_token as nat),
{
    let login = concat("AidLogin ", decimal_text(android_id).as_str());
    concat(concat(login.as_str(), ":").as_str(), decimal_text(security_token).as_str())
}

} // verus!
