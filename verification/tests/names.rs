use ssm::ids::{new_client_id, service_file_name, service_of_file};
use ssm::paths::{
    join_path, services_directory, services_directory_for, services_directory_in, socket_path,
    socket_path_for, socket_path_in,
};
use std::path::PathBuf;

const ID: u128 = 0x67e5504410b1426f9247bb680e5fe0c8;

#[test]
fn file_name_of_a_service() {
    assert_eq!(service_file_name(ID), "67e55044-10b1-426f-9247-bb680e5fe0c8");
    assert_eq!(service_file_name(0), "00000000-0000-0000-0000-000000000000");
    assert_eq!(service_file_name(u128::MAX), "ffffffff-ffff-ffff-ffff-ffffffffffff");
}

#[test]
fn file_name_leads_back_to_the_service() {
    for id in [0, 1, ID, u128::MAX, 0x0123456789abcdef0123456789abcdef] {
        assert_eq!(service_of_file(&service_file_name(id)), Some(id));
    }
    assert_ne!(service_file_name(1), service_file_name(16));
}

#[test]
fn other_notations_of_an_identifier() {
    assert_eq!(service_of_file("67E55044-10B1-426F-9247-BB680E5FE0C8"), Some(ID));
    assert_eq!(service_of_file("67e5504410b1426f9247bb680e5fe0c8"), Some(ID));
    assert_eq!(service_of_file(""), None);
    assert_eq!(service_of_file("notes.txt"), None);
    assert_eq!(service_of_file("67e55044-10b1-426f-9247-bb680e5fe0c"), None);
}

#[test]
fn client_identifiers_are_random() {
    let first = new_client_id();
    assert_ne!(first, new_client_id());
    assert_eq!(first >> 76 & 0xf, 4);
}

#[test]
fn joining_is_that_of_path_buffers() {
    for directory in ["", "/", "/home/ann", "/home/ann/", "rel", "a//"] {
        for name in ["x", ".ssm.sock", "/abs", "", "a/b"] {
            let mut path = PathBuf::from(directory);
            path.push(name);
            assert_eq!(
                join_path(&directory.as_bytes().to_vec(), name),
                path.into_os_string().into_encoded_bytes()
            );
        }
    }
    assert_eq!(join_path(&vec![0xff], "x"), vec![0xff, 0x2f, 0x78]);
}

#[test]
fn paths_below_a_home_directory() {
    let home = b"/home/ann".to_vec();
    assert_eq!(socket_path_in(&home), b"/home/ann/.ssm.sock".to_vec());
    assert_eq!(services_directory_in(&home), b"/home/ann/.ssm_services".to_vec());
}

#[test]
fn no_paths_without_a_home_directory() {
    let home = b"/home/ann".to_vec();
    assert_eq!(socket_path_for(Some(home.clone())), Some(b"/home/ann/.ssm.sock".to_vec()));
    assert_eq!(socket_path_for(None), None);
    assert_eq!(
        services_directory_for(Some(home)),
        Some(b"/home/ann/.ssm_services".to_vec())
    );
    assert_eq!(services_directory_for(None), None);
}

#[test]
fn paths_below_the_home_directory_of_the_user() {
    match home::home_dir() {
        Some(path) => {
            let home = path.into_os_string().into_encoded_bytes();
            assert_eq!(socket_path(), Some(socket_path_in(&home)));
            assert_eq!(services_directory(), Some(services_directory_in(&home)));
        }
        None => {
            assert_eq!(socket_path(), None);
            assert_eq!(services_directory(), None);
        }
    }
}
