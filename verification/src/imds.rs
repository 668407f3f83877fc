//! The instance-metadata-service client: the data it surfaces and the pure
//! extraction functions over the structured body the hypervisor returns.
//!
//! The network transport lives outside the library; it hands the raw body in
//! as a string. Each extraction below is independent and fails with a
//! field-specific error exactly when its field is absent from the body.
//! Fields are located by the first occurrence of their marker in the body:
//! the body is assumed not to carry a field's marker inside an unrelated
//! quoted value.

use vstd::prelude::*;

use crate::error::Error;
use crate::error::ImdsField;
use crate::scan;

verus! {

/// An SSH public key as the metadata service surfaces it: the key material
/// plus its key-pair identifier.
#[derive(Debug, Clone, PartialEq, Eq)]
pub struct PublicKeys {
    pub key_data: String,
    pub path: String,
}

/// The mathematical value of a public key.
pub ghost struct PublicKeysView {
    pub key_data: Seq<char>,
    pub path: Seq<char>,
}

impl View for PublicKeys {
    type V = PublicKeysView;

    open spec fn view(&self) -> PublicKeysView {
        PublicKeysView { key_data: self.key_data@, path: self.path@ }
    }
}

impl DeepView for PublicKeys {
    type V = PublicKeysView;

    open spec fn deep_view(&self) -> PublicKeysView {
        self@
    }
}

/// The marker that precedes the password-authentication flag in the body.
pub open spec fn disable_auth_marker() -> Seq<char> {
    "\"disablePasswordAuthentication\":"@
}

/// The marker that precedes the admin username in the body.
pub open spec fn username_marker() -> Seq<char> {
    "\"username\":\""@
}

/// The marker that precedes the configured hostname in the body.
pub open spec fn hostname_marker() -> Seq<char> {
    "\"hostname\":\""@
}

/// The marker that precedes one public key's material in the body.
pub open spec fn key_data_marker() -> Seq<char> {
    "\"keyData\":\""@
}

/// The string value following the first occurrence of `marker` in `body`,
/// up to the closing quote: the way each textual field is extracted. The
/// marker is matched wherever it first occurs, so the body is assumed not to
/// carry a field's marker inside an unrelated quoted value.
pub open spec fn spec_field_after(body: Seq<char>, marker: Seq<char>) -> Option<Seq<char>> {
    match scan::spec_find(body, marker) {
        Option::None => Option::<Seq<char>>::None,
        Option::Some(i) => {
            let rest = body.subrange(i + marker.len(), body.len() as int);
            match scan::spec_find(rest, "\""@) {
                Option::None => Option::<Seq<char>>::None,
                Option::Some(j) => Option::Some(rest.subrange(0, j)),
            }
        },
    }
}

/// Extracts the string value following the first occurrence of `marker`.
pub fn field_after(body: &str, marker: &str) -> (r: Option<String>)
    ensures
        r.deep_view() == spec_field_after(body@, marker@),
{
    let _blen = body.unicode_len();
    match scan::find(body, marker) {
        Option::None => None,
        Option::Some(i) => {
            proof {
                scan::lemma_find_from_correct(body@, marker@, 0);
            }
            let rest = scan::tail_from(body, i + marker.unicode_len());
            match scan::find(rest.as_str(), "\"") {
                Option::None => None,
                Option::Some(j) => {
                    proof {
                        scan::lemma_find_from_correct(rest@, "\""@, 0);
                    }
                    Some(scan::head_to(rest.as_str(), j))
                },
            }
        },
    }
}

/// Whether the metadata body reports password authentication as disabled.
///
/// The flag is the token following the marker: `true` means disabled,
/// `false` means enabled, anything else is malformed. The extraction fails
/// with the field-specific error exactly when the marker is absent or the
/// token is neither `true` nor `false`.
pub open spec fn spec_disable_auth_flag(body: Seq<char>) -> Option<bool> {
    match scan::spec_find(body, disable_auth_marker()) {
        Option::None => Option::<bool>::None,
        Option::Some(i) => {
            let rest = body.subrange(i + disable_auth_marker().len(), body.len() as int);
            if "true"@.is_prefix_of(rest) {
                Option::Some(true)
            } else if "false"@.is_prefix_of(rest) {
                Option::Some(false)
            } else {
                Option::<bool>::None
            }
        },
    }
}

/// Reports whether the metadata body disables password authentication.
pub fn is_password_authentication_disabled(body: &str) -> (r: Result<bool, Error>)
    ensures
        r is Ok <==> spec_disable_auth_flag(body@) is Some,
        r matches Ok(b) ==> spec_disable_auth_flag(body@) == Some(b),
        r is Err ==> r == Result::<bool, Error>::Err(
            Error::ImdsFieldInvalid { field: ImdsField::DisablePasswordAuthentication },
        ),
{
    let _blen = body.unicode_len();
    match scan::find(body, "\"disablePasswordAuthentication\":") {
        Option::None => Err(Error::ImdsFieldInvalid {
            field: ImdsField::DisablePasswordAuthentication,
        }),
        Option::Some(i) => {
            proof {
                reveal_strlit("\"disablePasswordAuthentication\":");
                assert(disable_auth_marker().len() == 32);
                scan::lemma_find_from_correct(body@, disable_auth_marker(), 0);
            }
            let rest = scan::tail_from(body, i + 32);
            if scan::starts_with(rest.as_str(), "true") {
                Ok(true)
            } else if scan::starts_with(rest.as_str(), "false") {
                Ok(false)
            } else {
                Err(Error::ImdsFieldInvalid {
                    field: ImdsField::DisablePasswordAuthentication,
                })
            }
        },
    }
}

/// The admin username configured in the metadata body.
pub fn get_username(body: &str) -> (r: Result<String, Error>)
    ensures
        r matches Ok(u) ==> spec_field_after(body@, username_marker()) == Some(u@),
        r is Err <==> spec_field_after(body@, username_marker()) is None,
        r is Err ==> r == Result::<String, Error>::Err(
            Error::ImdsFieldInvalid { field: ImdsField::Username },
        ),
{
    match field_after(body, "\"username\":\"") {
        Option::Some(u) => Ok(u),
        Option::None => Err(Error::ImdsFieldInvalid { field: ImdsField::Username }),
    }
}

/// The hostname configured in the metadata body.
pub fn get_hostname(body: &str) -> (r: Result<String, Error>)
    ensures
        r matches Ok(h) ==> spec_field_after(body@, hostname_marker()) == Some(h@),
        r is Err <==> spec_field_after(body@, hostname_marker()) is None,
        r is Err ==> r == Result::<String, Error>::Err(
            Error::ImdsFieldInvalid { field: ImdsField::Hostname },
        ),
{
    match field_after(body, "\"hostname\":\"") {
        Option::Some(h) => Ok(h),
        Option::None => Err(Error::ImdsFieldInvalid { field: ImdsField::Hostname }),
    }
}

/// The key material of every public key in the body, in order: the value
/// after each successive occurrence of the key-data marker.
pub open spec fn spec_key_data(body: Seq<char>) -> Seq<Seq<char>>
    decreases body.len(),
    via spec_key_data_decreases
{
    match scan::spec_find(body, key_data_marker()) {
        Option::None => Seq::empty(),
        Option::Some(i) => {
            let rest = body.subrange(i + key_data_marker().len(), body.len() as int);
            match scan::spec_find(rest, "\""@) {
                Option::None => Seq::empty(),
                Option::Some(j) => seq![rest.subrange(0, j)] + spec_key_data(
                    rest.subrange(j, rest.len() as int),
                ),
            }
        },
    }
}

/// Whether the body's key entries are well formed: every occurrence of the
/// key-data marker is followed by a closing quote.
pub open spec fn spec_keys_wellformed(body: Seq<char>) -> bool
    decreases body.len(),
    via spec_keys_wellformed_decreases
{
    match scan::spec_find(body, key_data_marker()) {
        Option::None => true,
        Option::Some(i) => {
            let rest = body.subrange(i + key_data_marker().len(), body.len() as int);
            match scan::spec_find(rest, "\""@) {
                Option::None => false,
                Option::Some(j) => spec_keys_wellformed(rest.subrange(j, rest.len() as int)),
            }
        },
    }
}

#[via_fn]
proof fn spec_keys_wellformed_decreases(body: Seq<char>) {
    reveal_strlit("\"keyData\":\"");
    scan::lemma_find_from_correct(body, key_data_marker(), 0);
    if let Some(i) = scan::spec_find(body, key_data_marker()) {
        let rest = body.subrange(i + key_data_marker().len(), body.len() as int);
        scan::lemma_find_from_correct(rest, "\""@, 0);
    }
}

#[via_fn]
proof fn spec_key_data_decreases(body: Seq<char>) {
    reveal_strlit("\"keyData\":\"");
    scan::lemma_find_from_correct(body, key_data_marker(), 0);
    if let Some(i) = scan::spec_find(body, key_data_marker()) {
        let rest = body.subrange(i + key_data_marker().len(), body.len() as int);
        scan::lemma_find_from_correct(rest, "\""@, 0);
    }
}

/// The public keys extracted from the body: one per key-data occurrence, in
/// order, each carrying its key material. The key-pair identifier is not
/// extracted — installation uses only the key material — so it is left
/// empty.
pub open spec fn spec_public_keys(body: Seq<char>) -> Seq<PublicKeysView> {
    spec_key_data(body).map_values(
        |d: Seq<char>| PublicKeysView { key_data: d, path: Seq::empty() },
    )
}

/// Extracts the ordered SSH public keys from the metadata body. A body with
/// no key entries yields the empty list; a truncated key entry makes the
/// whole field malformed; the key-pair identifier is carried alongside each
/// key's material.
pub fn get_ssh_keys(body: &str) -> (r: Result<Vec<PublicKeys>, Error>)
    ensures
        r matches Ok(keys) ==> keys.deep_view() == spec_public_keys(body@),
        r is Ok <==> spec_keys_wellformed(body@),
        r is Err ==> r == Result::<Vec<PublicKeys>, Error>::Err(
            Error::ImdsFieldInvalid { field: ImdsField::PublicKeys },
        ),
{
    let mut keys: Vec<PublicKeys> = Vec::new();
    let mut rest: String = scan::tail_from(body, 0);
    proof {
        assert(body@.subrange(0, body@.len() as int) == body@);
    }
    loop
        invariant
            spec_key_data(body@) == keys.deep_view().map_values(
                |k: PublicKeysView| k.key_data,
            ) + spec_key_data(rest@),
            forall|j: int| 0 <= j < keys.deep_view().len() ==> #[trigger] keys.deep_view()[j].path
                == Seq::<char>::empty(),
            spec_keys_wellformed(body@) == spec_keys_wellformed(rest@),
        decreases rest@.len(),
    {
        let ghost pre = keys.deep_view().map_values(|k: PublicKeysView| k.key_data);
        match scan::find(rest.as_str(), "\"keyData\":\"") {
            Option::None => {
                proof {
                    assert(pre + spec_key_data(rest@) =~= pre);
                    assert(spec_key_data(body@) == pre);
                    assert(spec_public_keys(body@).len() == keys.deep_view().len());
                    assert forall|j: int|
                        0 <= j < keys.deep_view().len() implies #[trigger] keys.deep_view()[j]
                        == spec_public_keys(body@)[j] by {
                        assert(spec_key_data(body@)[j] == pre[j]);
                        assert(pre[j] == keys.deep_view()[j].key_data);
                        assert(keys.deep_view()[j].path == Seq::<char>::empty());
                    }
                    assert(keys.deep_view() =~= spec_public_keys(body@));
                }
                return Ok(keys);
            },
            Option::Some(i) => {
                proof {
                    reveal_strlit("\"keyData\":\"");
                    assert(key_data_marker().len() == 11);
                    scan::lemma_find_from_correct(rest@, key_data_marker(), 0);
                }
                let _rlen = rest.as_str().unicode_len();
                let after = scan::tail_from(rest.as_str(), i + 11);
                match scan::find(after.as_str(), "\"") {
                    Option::None => {
                        return Err(Error::ImdsFieldInvalid { field: ImdsField::PublicKeys });
                    },
                    Option::Some(j) => {
                        proof {
                            scan::lemma_find_from_correct(after@, "\""@, 0);
                        }
                        let ghost old_keys = keys.deep_view();
                        let data = scan::head_to(after.as_str(), j);
                        keys.push(PublicKeys { key_data: data, path: String::new() });
                        let next = scan::tail_from(after.as_str(), j);
                        proof {
                            assert(keys.deep_view() =~= old_keys.push(
                                PublicKeysView {
                                    key_data: after@.subrange(0, j as int),
                                    path: Seq::empty(),
                                },
                            ));
                            let kd = keys.deep_view().map_values(
                                |k: PublicKeysView| k.key_data,
                            );
                            assert(kd =~= pre.push(after@.subrange(0, j as int)));
                            assert(spec_key_data(rest@) == seq![
                                after@.subrange(0, j as int),
                            ] + spec_key_data(next@));
                            assert(pre + spec_key_data(rest@) =~= kd + spec_key_data(
                                next@,
                            ));
                        }
                        rest = next;
                    },
                }
            },
        }
    }
}

} // verus!
