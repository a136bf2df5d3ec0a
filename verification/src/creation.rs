//! The creation of a container, step by step: the image is made present, then
//! the container is asked for, and the daemon's answer gives the handle. Each
//! step is handed what the daemon has answered and says what comes next.

use crate::client::{create_container, create_request, CreateRequest};
use crate::container::{Container, ContainerView, Lifecycle};
use crate::image::{DockerImage, DockerImageView};
use vstd::prelude::*;

verus! {

/// A creation whose image is being made present locally, pulled if need be.
#[derive(Debug)]
pub struct Pulling {
    image: DockerImage,
}

/// A creation whose image is present: the container is to be asked for.
#[derive(Debug)]
pub struct Creating {
    image: DockerImage,
}

/// What a creation has come to after one more item of the pull.
#[derive(Debug)]
pub enum PullStep<E> {
    /// The pull goes on.
    Continue(Pulling),
    /// The pull has failed, and the creation with it. No container is asked
    /// for.
    Failed(E),
    /// The image is present.
    Pulled(Creating),
}

impl View for Pulling {
    type V = DockerImageView;

    closed spec fn view(&self) -> DockerImageView {
        self.image@
    }
}

impl View for Creating {
    type V = DockerImageView;

    closed spec fn view(&self) -> DockerImageView {
        self.image@
    }
}

/// What a creation has come to, with the descriptor as what it says.
pub enum PullStepView<E> {
    Continue(DockerImageView),
    Failed(E),
    Pulled(DockerImageView),
}

impl<E> View for PullStep<E> {
    type V = PullStepView<E>;

    open spec fn view(&self) -> PullStepView<E> {
        match self {
            PullStep::Continue(pulling) => PullStepView::Continue(pulling@),
            PullStep::Failed(error) => PullStepView::Failed(*error),
            PullStep::Pulled(creating) => PullStepView::Pulled(creating@),
        }
    }
}

/// What the creation of the container that `image` describes comes to with
/// the next item of the pull: it goes on with a report of progress, fails with
/// the first failure, and has the image present when the pull has ended.
pub open spec fn next_pull_step<E>(image: DockerImageView, item: Option<Result<(), E>>)
    -> PullStepView<E> {
    match item {
        Some(Ok(())) => PullStepView::Continue(image),
        Some(Err(error)) => PullStepView::Failed(error),
        None => PullStepView::Pulled(image),
    }
}

/// What the daemon's answer to the request for a container gives: the handle
/// of the new container, which is created and not started and keeps the
/// descriptor, or the daemon's error as it came.
pub open spec fn created_handle<E>(image: DockerImageView, answer: Result<String, E>) -> Result<
    ContainerView,
    E,
> {
    match answer {
        Ok(id) => Ok(ContainerView { id: id@, image, state: Lifecycle::Created }),
        Err(error) => Err(error),
    }
}

/// A handle with its strings as text, or the error.
pub open spec fn handle_view<E>(outcome: Result<Container, E>) -> Result<ContainerView, E> {
    match outcome {
        Ok(container) => Ok(container@),
        Err(error) => Err(error),
    }
}

/// Begins the creation of the container that `image` describes. Nothing in
/// a creation starts the container.
pub fn create(image: DockerImage) -> (pulling: Pulling)
    ensures
        pulling@ == image@,
{
    Pulling { image }
}

impl Pulling {
    /// The reference of the image that is to be present.
    pub fn from_image(&self) -> (reference: String)
        ensures
            reference@ == self@.descriptor(),
    {
        self.image.descriptor()
    }

    /// Takes the next item of the pull: a report of progress, a failure, or
    /// `None` when the pull has ended.
    pub fn step<E>(self, item: Option<Result<(), E>>) -> (next: PullStep<E>)
        ensures
            next@ == next_pull_step(self@, item),
    {
        match item {
            Some(Ok(())) => PullStep::Continue(self),
            Some(Err(error)) => PullStep::Failed(error),
            None => PullStep::Pulled(Creating { image: self.image }),
        }
    }
}

impl Creating {
    /// The request for the container.
    pub fn request(&self) -> (request: CreateRequest)
        ensures
            request@ == create_request(self@),
    {
        create_container(&self.image)
    }

    /// Takes the daemon's answer to the request for the container: the
    /// identifier of the new container, or an error.
    pub fn created<E>(self, answer: Result<String, E>) -> (outcome: Result<Container, E>)
        ensures
            handle_view(outcome) == created_handle(self@, answer),
    {
        match answer {
            Ok(id) => Ok(Container::new(id, self.image)),
            Err(error) => Err(error),
        }
    }
}

} // verus!
