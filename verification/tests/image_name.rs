use jarvis_core::docker_image_name::DockerImageName;

#[test]
fn image_name() {
    let image_name_result = DockerImageName::try_from("httpd".to_string());

    assert!(image_name_result.is_ok());
    let image_name = image_name_result.unwrap();

    assert_eq!(1, image_name.name_components.len());
    assert_eq!("httpd", &image_name.name_components[0]);
    assert!(image_name.port.is_none());
    assert!(image_name.tag.is_none());
    assert_eq!(Some("registry-1.docker.io".to_string()), image_name.host);
}

#[test]
fn owned_image_name_with_version() {
    let image_name = DockerImageName::try_from("fedora/httpd:version1.0".to_string());

    let docker_image_name = image_name.unwrap();
    assert_eq!(2, docker_image_name.name_components.len());
    assert!(docker_image_name.host.is_some());
    assert_eq!("fedora", docker_image_name.host.unwrap());
    assert!(docker_image_name.port.is_none());
    assert!(docker_image_name.tag.is_some());
    assert_eq!("version1.0", docker_image_name.tag.unwrap());
}

#[test]
fn owned_image_name_with_test_version() {
    let image_name = DockerImageName::try_from("fedora/httpd:version1.0.test".to_string());

    let docker_image_name = image_name.unwrap();
    assert_eq!(2, docker_image_name.name_components.len());
    assert!(docker_image_name.host.is_some());
    assert_eq!("fedora", docker_image_name.host.unwrap());
    assert!(docker_image_name.port.is_none());
    assert!(docker_image_name.tag.is_some());
    assert_eq!("version1.0.test", docker_image_name.tag.unwrap());
}

#[test]
fn owned_image_name_with_registry() {
    let image_name = DockerImageName::try_from("myregistryhost:5000/fedora/httpd:version1.0".to_string());

    let docker_image_name = image_name.unwrap();
    assert_eq!(3, docker_image_name.name_components.len());
    assert!(docker_image_name.host.is_some());
    assert_eq!("myregistryhost", docker_image_name.host.unwrap());
    assert!(docker_image_name.port.is_some());
    assert_eq!(5000, docker_image_name.port.unwrap());
    assert!(docker_image_name.tag.is_some());
    assert_eq!("version1.0", docker_image_name.tag.unwrap());
}

#[test]
fn image_name_with_too_many_colons_is_refused() {
    let image_name = DockerImageName::try_from("httpd:one:two".to_string());

    assert!(image_name.is_err());
    assert_eq!(
        "Too many colons in the last name component",
        image_name.err().unwrap().message()
    );
}

#[test]
fn multi_piece_name_keeps_all_components() {
    let image_name = DockerImageName::try_from("myregistryhost:5000/fedora/httpd:version1.0".to_string());

    let docker_image_name = image_name.unwrap();
    assert_eq!("myregistryhost:5000", &docker_image_name.name_components[0]);
    assert_eq!("fedora", &docker_image_name.name_components[1]);
    assert_eq!("httpd:version1.0", &docker_image_name.name_components[2]);
}

#[test]
fn first_piece_without_alphanumerics_is_no_host() {
    let image_name = DockerImageName::try_from("---/httpd".to_string());

    let docker_image_name = image_name.unwrap();
    assert!(docker_image_name.host.is_none());
    assert!(docker_image_name.port.is_none());
    assert_eq!(2, docker_image_name.name_components.len());
}

#[test]
fn the_largest_port_is_accepted() {
    let image_name = DockerImageName::try_from("myregistryhost:65535/fedora/httpd".to_string());

    let docker_image_name = image_name.unwrap();
    assert_eq!(Some(65535), docker_image_name.port);
    assert_eq!("myregistryhost", docker_image_name.host.unwrap());
    assert!(docker_image_name.tag.is_none());
}
