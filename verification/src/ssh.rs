//! SSH-key installation: resolving the created account in the system user
//! database, and building the authorized-keys file contents — one line per
//! public key. Writing the file is left to the surroundings; the contents and
//! the owning account are planned here.

use vstd::prelude::*;

use crate::error::Error;
use crate::imds::PublicKeys;
use crate::imds::PublicKeysView;

verus! {

/// An account as the system user database reports it: what key installation
/// needs to place and own the authorized-keys file.
#[derive(Debug, Clone, PartialEq, Eq)]
pub struct SysUser {
    pub name: String,
    pub home: String,
    pub uid: u32,
    pub gid: u32,
}

/// The mathematical value of a resolved account.
pub ghost struct SysUserView {
    pub name: Seq<char>,
    pub home: Seq<char>,
    pub uid: u32,
    pub gid: u32,
}

impl View for SysUser {
    type V = SysUserView;

    open spec fn view(&self) -> SysUserView {
        SysUserView { name: self.name@, home: self.home@, uid: self.uid, gid: self.gid }
    }
}

/// The declared error type of the system user database queries.
#[verifier::external_type_specification]
#[verifier::external_body]
pub struct ExErrno(nix::errno::Errno);

/// Relies on nix::unistd::User::from_name: queries the system user database
/// for the account with the given name; `Ok(None)` when no such account
/// exists (or the name cannot be a login name at all), `Err` when the
/// database cannot be read. The entry returned carries the queried name.
#[verifier::external_body]
fn user_from_name(name: &str) -> (r: Result<Option<SysUser>, nix::errno::Errno>)
    ensures
        r matches Ok(Some(u)) ==> u.name@ == name@,
{
    match nix::unistd::User::from_name(name) {
        Ok(Some(u)) => Ok(Some(SysUser {
            name: u.name,
            home: u.dir.to_string_lossy().into_owned(),
            uid: u.uid.as_raw(),
            gid: u.gid.as_raw(),
        })),
        Ok(None) => Ok(None),
        Err(e) => Err(e),
    }
}

/// Resolves an account on the host. `Ok(None)` means the account does not
/// exist; the failure means the user database itself could not be queried.
pub fn lookup_user(name: &str) -> (r: Result<Option<SysUser>, Error>)
    ensures
        r matches Ok(Some(u)) ==> u.name@ == name@,
        r is Err ==> r == Result::<Option<SysUser>, Error>::Err(Error::UserLookupFailed),
{
    match user_from_name(name) {
        Ok(o) => Ok(o),
        Err(_) => Err(Error::UserLookupFailed),
    }
}

/// The authorized-keys file contents for a list of public keys: one line per
/// key, each the key material followed by a newline.
pub open spec fn spec_authorized_keys(keys: Seq<PublicKeysView>) -> Seq<char>
    decreases keys.len(),
{
    if keys.len() == 0 {
        Seq::empty()
    } else {
        spec_authorized_keys(keys.drop_last()) + keys.last().key_data + "\n"@
    }
}

/// The authorized-keys file contents for a list of key materials alone: one
/// line per entry.
pub open spec fn spec_authorized_data(datas: Seq<Seq<char>>) -> Seq<char>
    decreases datas.len(),
{
    if datas.len() == 0 {
        Seq::empty()
    } else {
        spec_authorized_data(datas.drop_last()) + datas.last() + "\n"@
    }
}

/// The file contents depend on the key material alone: the contents for a
/// key list are the contents for its key materials.
pub proof fn lemma_authorized_keys_data(keys: Seq<PublicKeysView>)
    ensures
        spec_authorized_keys(keys) == spec_authorized_data(
            keys.map_values(|k: PublicKeysView| k.key_data),
        ),
    decreases keys.len(),
{
    let datas = keys.map_values(|k: PublicKeysView| k.key_data);
    if keys.len() == 0 {
    } else {
        lemma_authorized_keys_data(keys.drop_last());
        assert(keys.drop_last().map_values(|k: PublicKeysView| k.key_data) =~= datas.drop_last());
        assert(datas.last() == keys.last().key_data);
    }
}

/// Builds the authorized-keys file contents for the given public keys.
pub fn authorized_keys(keys: &Vec<PublicKeys>) -> (r: String)
    ensures
        r@ == spec_authorized_keys(keys.deep_view()),
{
    let ghost dv = keys.deep_view();
    let mut out = String::new();
    let mut i: usize = 0;
    while i < keys.len()
        invariant
            i <= keys.len(),
            dv == keys.deep_view(),
            dv.len() == keys.len(),
            forall|j: int| 0 <= j < keys.len() ==> dv[j] == keys@[j]@,
            out@ == spec_authorized_keys(dv.take(i as int)),
        decreases keys.len() - i,
    {
        out.append(keys[i].key_data.as_str());
        out.append("\n");
        proof {
            assert(dv.take(i + 1).drop_last() == dv.take(i as int));
            assert(dv.take(i + 1).last() == dv[i as int]);
        }
        i = i + 1;
    }
    proof {
        assert(dv.take(keys.len() as int) == dv);
    }
    out
}

} // verus!
