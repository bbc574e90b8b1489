//! Where the server listens and where it keeps the configurations of its
//! services. A path is the bytes that the file system knows it by.

use vstd::prelude::*;
use vstd::utf8::{encode_utf8, is_ascii_chars_encode_utf8};

verus! {

/// The byte between the parts of a path.
pub const SEPARATOR: u8 = 0x2f;

/// The path of an entry of a directory. An absolute name stands for itself.
pub open spec fn joined(directory: Seq<u8>, name: Seq<u8>) -> Seq<u8> {
    if name.len() > 0 && name[0] == SEPARATOR {
        name
    } else if directory.len() == 0 || directory.last() == SEPARATOR {
        directory + name
    } else {
        directory.push(SEPARATOR) + name
    }
}

/// Where the server listens, below this home directory.
pub open spec fn socket_below(home: Seq<u8>) -> Seq<u8> {
    joined(home, encode_utf8(".ssm.sock"@))
}

/// Where the configurations are kept, below this home directory.
pub open spec fn services_below(home: Seq<u8>) -> Seq<u8> {
    joined(home, encode_utf8(".ssm_services"@))
}

/// `home::home_dir`: the home directory of the user, if it can be told. It is
/// taken from the environment, so nothing is known of it.
#[verifier::external_body]
fn home_directory() -> (home: Option<Vec<u8>>) {
    match home::home_dir() {
        Some(path) => Some(path.into_os_string().into_encoded_bytes()),
        None => None,
    }
}

/// The path of an entry of a directory.
pub fn join_path(directory: &Vec<u8>, name: &str) -> (path: Vec<u8>)
    ensures
        path@ == joined(directory@, encode_utf8(name@)),
{
    let name: &[u8] = name.as_bytes();
    let mut path: Vec<u8> = Vec::new();
    if !(name.len() > 0 && name[0] == SEPARATOR) {
        path.extend_from_slice(directory.as_slice());
        assert(path@ =~= directory@);
        if directory.len() > 0 && directory[directory.len() - 1] != SEPARATOR {
            path.push(SEPARATOR);
        }
    }
    let ghost before = path@;
    path.extend_from_slice(name);
    assert(path@ =~= before + name@);
    assert(path@ =~= joined(directory@, name@));
    path
}

/// Where the server listens, below a home directory.
pub fn socket_path_in(home: &Vec<u8>) -> (path: Vec<u8>)
    ensures
        path@ == socket_below(home@),
{
    join_path(home, ".ssm.sock")
}

/// Where the configurations of the services are kept, below a home directory.
pub fn services_directory_in(home: &Vec<u8>) -> (path: Vec<u8>)
    ensures
        path@ == services_below(home@),
{
    join_path(home, ".ssm_services")
}

/// Where the server listens, given the home directory that was found, if one
/// was.
pub fn socket_path_for(home: Option<Vec<u8>>) -> (path: Option<Vec<u8>>)
    ensures
        path is Some == home is Some,
        path matches Some(path) ==> path@ == socket_below(home->0@),
{
    match home {
        Some(home) => Some(socket_path_in(&home)),
        None => None,
    }
}

/// Where the configurations of the services are kept, given the home directory
/// that was found, if one was.
pub fn services_directory_for(home: Option<Vec<u8>>) -> (path: Option<Vec<u8>>)
    ensures
        path is Some == home is Some,
        path matches Some(path) ==> path@ == services_below(home->0@),
{
    match home {
        Some(home) => Some(services_directory_in(&home)),
        None => None,
    }
}

/// Where the server listens, if the user has a home directory.
pub fn socket_path() -> (path: Option<Vec<u8>>)
    ensures
        path matches Some(path) ==> exists|home: Seq<u8>| path@ == #[trigger] socket_below(home),
{
    socket_path_for(home_directory())
}

/// Where the configurations of the services are kept, if the user has a home
/// directory.
pub fn services_directory() -> (path: Option<Vec<u8>>)
    ensures
        path matches Some(path) ==> exists|home: Seq<u8>| path@ == #[trigger] services_below(home),
{
    services_directory_for(home_directory())
}

/// The path of an entry of a directory begins with the directory and ends with
/// the name, with one separator between them, which the directory may end with.
/// An absolute name stands for itself, and so does a name in no directory.
pub proof fn lemma_joined_path(directory: &Vec<u8>, name: &str, path: Vec<u8>)
    requires
        call_ensures(join_path, (directory, name), path),
    ensures
        ({
            let name = encode_utf8(name@);
            let before = (path@.len() - name.len()) as int;
            &&& 0 <= before
            &&& path@.skip(before) == name
            &&& if name.len() > 0 && name[0] == 0x2f {
                before == 0
            } else if directory@.len() == 0 || directory@.last() == 0x2f {
                path@.take(before) == directory@
            } else {
                &&& before == directory@.len() + 1
                &&& path@.take(before - 1) == directory@
                &&& path@[before - 1] == 0x2f
            }
        }),
{
    let name = encode_utf8(name@);
    let before = (path@.len() - name.len()) as int;
    assert(path@.skip(before) =~= name);
    if name.len() > 0 && name[0] == 0x2f {
    } else if directory@.len() == 0 || directory@.last() == 0x2f {
        assert(path@.take(before) =~= directory@);
    } else {
        assert(path@.take(before - 1) =~= directory@);
    }
}

/// The name does not begin with the byte between the parts of a path.
proof fn lemma_relative_names()
    ensures
        encode_utf8(".ssm.sock"@).len() > 0,
        encode_utf8(".ssm.sock"@)[0] != 0x2f,
        encode_utf8(".ssm_services"@).len() > 0,
        encode_utf8(".ssm_services"@)[0] != 0x2f,
{
    reveal_strlit(".ssm.sock");
    reveal_strlit(".ssm_services");
    is_ascii_chars_encode_utf8(".ssm.sock"@);
    is_ascii_chars_encode_utf8(".ssm_services"@);
    assert(".ssm.sock"@[0] == '.');
    assert(".ssm_services"@[0] == '.');
}

/// The path is that of the entry of this name directly in the home directory.
pub open spec fn lies_in(path: Seq<u8>, home: Seq<u8>, name: Seq<char>) -> bool {
    path == if home.len() == 0 || home.last() == 0x2f {
        home + encode_utf8(name)
    } else {
        home + seq![0x2fu8] + encode_utf8(name)
    }
}

/// The server listens at `.ssm.sock` and keeps its configurations in
/// `.ssm_services`, both directly in the home directory.
pub proof fn lemma_paths_in_home(home: &Vec<u8>, socket: Vec<u8>, services: Vec<u8>)
    requires
        call_ensures(socket_path_in, (home,), socket),
        call_ensures(services_directory_in, (home,), services),
    ensures
        lies_in(socket@, home@, ".ssm.sock"@),
        lies_in(services@, home@, ".ssm_services"@),
{
    lemma_relative_names();
    assert(home@.push(0x2f) =~= home@ + seq![0x2fu8]);
}

/// There is a place to listen at and one to keep configurations in exactly where
/// a home directory was found, and both lie in this home directory.
pub proof fn lemma_paths_where_home_is_found(
    home: Option<Vec<u8>>,
    socket: Option<Vec<u8>>,
    services: Option<Vec<u8>>,
)
    requires
        call_ensures(socket_path_for, (home,), socket),
        call_ensures(services_directory_for, (home,), services),
    ensures
        socket is Some == home is Some,
        services is Some == home is Some,
        home is Some ==> lies_in(socket->0@, home->0@, ".ssm.sock"@),
        home is Some ==> lies_in(services->0@, home->0@, ".ssm_services"@),
{
    lemma_relative_names();
    if home is Some {
        assert(home->0@.push(0x2f) =~= home->0@ + seq![0x2fu8]);
    }
}

/// Where a place to listen at or one to keep configurations in is given, it lies
/// in some home directory.
pub proof fn lemma_paths_lie_in_a_home(socket: Option<Vec<u8>>, services: Option<Vec<u8>>)
    requires
        call_ensures(socket_path, (), socket),
        call_ensures(services_directory, (), services),
    ensures
        socket is Some ==> exists|home: Seq<u8>| lies_in(socket->0@, home, ".ssm.sock"@),
        services is Some ==> exists|home: Seq<u8>| lies_in(services->0@, home, ".ssm_services"@),
{
    lemma_relative_names();
    if socket is Some {
        let home = choose|home: Seq<u8>| socket->0@ == #[trigger] socket_below(home);
        assert(home.push(0x2f) =~= home + seq![0x2fu8]);
        assert(lies_in(socket->0@, home, ".ssm.sock"@));
    }
    if services is Some {
        let home = choose|home: Seq<u8>| services->0@ == #[trigger] services_below(home);
        assert(home.push(0x2f) =~= home + seq![0x2fu8]);
        assert(lies_in(services->0@, home, ".ssm_services"@));
    }
}

} // verus!
