use testcontainers_rs::client::Request;
use testcontainers_rs::container::Lifecycle;
use testcontainers_rs::creation::{create, Creating, PullStep};
use testcontainers_rs::image::DockerImage;

fn image() -> DockerImage {
    DockerImage::new("nginx").with_tag("1.25").with_mapped_port(8080, 80)
}

fn pulled(image: DockerImage) -> Creating {
    match create(image).step::<String>(None) {
        PullStep::Pulled(creating) => creating,
        other => panic!("unexpected step {:?}", other),
    }
}

#[test]
fn creation_asks_for_the_image_by_its_reference() {
    assert_eq!(create(image()).from_image(), "nginx:1.25");
    assert_eq!(create(DockerImage::new("redis")).from_image(), "redis:latest");
}

#[test]
fn pull_goes_on_with_progress() {
    let pulling = match create(image()).step::<String>(Some(Ok(()))) {
        PullStep::Continue(next) => next,
        other => panic!("unexpected step {:?}", other),
    };
    assert_eq!(pulling.from_image(), "nginx:1.25");
    assert!(matches!(pulling.step::<String>(Some(Ok(()))), PullStep::Continue(_)));
}

#[test]
fn failed_pull_fails_the_creation_with_that_error() {
    match create(image()).step(Some(Err(String::from("no such image")))) {
        PullStep::Failed(error) => assert_eq!(error, "no such image"),
        other => panic!("unexpected step {:?}", other),
    }
    let pulling = match create(image()).step::<u16>(Some(Ok(()))) {
        PullStep::Continue(next) => next,
        other => panic!("unexpected step {:?}", other),
    };
    assert!(matches!(pulling.step(Some(Err(500u16))), PullStep::Failed(500)));
}

#[test]
fn container_is_asked_for_once_the_image_is_present() {
    let creating = pulled(image());
    let request = creating.request();
    assert_eq!(request.image, "nginx:1.25");
    assert_eq!(request.exposed_ports, vec![String::from("80/tcp")]);
    assert_eq!(request.name, None);
}

#[test]
fn created_container_is_bound_to_the_new_identifier() {
    let container = pulled(image()).created::<String>(Ok(String::from("4f2a"))).unwrap();
    assert_eq!(container.id(), "4f2a");
    assert_eq!(container.image().descriptor(), "nginx:1.25");
}

#[test]
fn created_container_is_not_started() {
    let container = pulled(image()).created::<String>(Ok(String::from("4f2a"))).unwrap();
    assert_eq!(container.state(), Lifecycle::Created);
    assert_eq!(container.start(), Ok(Request::Start { id: String::from("4f2a") }));
}

#[test]
fn refused_creation_hands_the_error_on() {
    match pulled(image()).created(Err(String::from("conflict"))) {
        Err(error) => assert_eq!(error, "conflict"),
        Ok(container) => panic!("unexpected container {:?}", container),
    }
}
