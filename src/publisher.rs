use vstd::prelude::*;

verus! {

/// A command that could not be serialized.
#[derive(Debug)]
pub struct SerializeError {
    pub reason: String,
}

/// A publish attempt that the transport reported as failed.
#[derive(Debug)]
pub struct PublishError {
    pub reason: String,
}

/// Anything that can send bytes to a destination topic.
pub trait Publisher {
    /// Sends `data` to `destination`, or to the publisher's own default topic
    /// when none is given.
    fn publish(&self, data: Vec<u8>, destination: Option<&str>) -> Result<(), PublishError>;
}

/// The payloads of the commands that serialized, in their order; those that
/// failed are dropped.
pub open spec fn serialized_payloads(commands: Seq<Result<Vec<u8>, SerializeError>>) -> Seq<
    Seq<u8>,
>
    decreases commands.len(),
{
    if commands.len() == 0 {
        Seq::empty()
    } else {
        let rest = serialized_payloads(commands.drop_last());
        match commands.last() {
            Ok(data) => rest.push(data@),
            Err(_) => rest,
        }
    }
}

/// Whether every publish attempt succeeded.
pub open spec fn all_published(outcomes: Seq<Result<(), PublishError>>) -> bool {
    forall|i: int| 0 <= i < outcomes.len() ==> #[trigger] outcomes[i] is Ok
}

/// The payloads of the commands that serialized, in their order. A command
/// that failed to serialize is skipped and does not stop the batch.
pub fn ok_payloads(commands: &Vec<Result<Vec<u8>, SerializeError>>) -> (r: Vec<Vec<u8>>)
    ensures
        r@.map_values(|d: Vec<u8>| d@) == serialized_payloads(commands@),
{
    let mut r: Vec<Vec<u8>> = Vec::new();
    let mut i: usize = 0;
    while i < commands.len()
        invariant
            i <= commands@.len(),
            r@.map_values(|d: Vec<u8>| d@) == serialized_payloads(commands@.take(i as int)),
        decreases commands@.len() - i,
    {
        proof {
            assert(commands@.take(i + 1).drop_last() =~= commands@.take(i as int));
        }
        match &commands[i] {
            Ok(data) => {
                let copy = data.clone();
                r.push(copy);
                assert(r@.map_values(|d: Vec<u8>| d@) =~= serialized_payloads(
                    commands@.take(i as int),
                ).push(data@));
            },
            Err(_) => {},
        }
        i = i + 1;
    }
    assert(commands@.take(i as int) =~= commands@);
    r
}

/// Folds the outcomes of a batch of publish attempts: success when every one
/// succeeded, otherwise the first failure in the batch's order.
pub fn first_failure(outcomes: Vec<Result<(), PublishError>>) -> (r: Result<(), PublishError>)
    ensures
        all_published(outcomes@) ==> r is Ok,
        !all_published(outcomes@) ==> exists|i: int|
            0 <= i < outcomes@.len() && outcomes@[i] is Err && r == outcomes@[i] && forall|j: int|
                0 <= j < i ==> #[trigger] outcomes@[j] is Ok,
{
    let mut rest = outcomes;
    let mut i: usize = 0;
    while i < rest.len()
        invariant
            i <= rest@.len(),
            rest@ == outcomes@,
            forall|j: int| 0 <= j < i ==> #[trigger] outcomes@[j] is Ok,
        decreases rest@.len() - i,
    {
        if rest[i].is_err() {
            let failed = rest.remove(i);
            assert(failed == outcomes@[i as int]);
            assert(!all_published(outcomes@));
            return failed;
        }
        i = i + 1;
    }
    assert(all_published(outcomes@));
    Ok(())
}

/// Publishes the commands derived from one message to a single topic.
#[derive(Clone)]
pub struct CommandPublisher<Pub> {
    publisher: Pub,
    topic: String,
}

impl<Pub> CommandPublisher<Pub> {
    pub closed spec fn spec_publisher(&self) -> Pub {
        self.publisher
    }

    pub closed spec fn spec_topic(&self) -> Seq<char> {
        self.topic@
    }

    /// A command publisher that sends through `publisher` to `topic`.
    pub fn new(publisher: Pub, topic: &str) -> (r: CommandPublisher<Pub>)
        ensures
            r.spec_publisher() == publisher,
            r.spec_topic() == topic@,
    {
        CommandPublisher { publisher, topic: topic.to_owned() }
    }

    pub fn topic(&self) -> (r: &str)
        ensures
            r@ == self.spec_topic(),
    {
        self.topic.as_str()
    }

    pub fn publisher(&self) -> (r: &Pub)
        ensures
            *r == self.spec_publisher(),
    {
        &self.publisher
    }

    /// The publishes that a batch turns into, in order: one for each command
    /// that serialized, its payload paired with this publisher's topic.
    /// `publish_commands` makes exactly these calls, one per pair, in this
    /// order, whatever earlier ones returned.
    pub fn publish_plan(&self, commands: &Vec<Result<Vec<u8>, SerializeError>>) -> (r: Vec<
        (Vec<u8>, String),
    >)
        ensures
            r@.len() == serialized_payloads(commands@).len(),
            forall|i: int|
                0 <= i < r@.len() ==> (#[trigger] r@[i]).0@ == serialized_payloads(commands@)[i]
                    && r@[i].1@ == self.spec_topic(),
    {
        let payloads = ok_payloads(commands);
        let ghost expected = serialized_payloads(commands@);
        assert(payloads@.len() == expected.len()) by {
            assert(payloads@.map_values(|d: Vec<u8>| d@).len() == payloads@.len());
        }
        let mut r: Vec<(Vec<u8>, String)> = Vec::new();
        let mut i: usize = 0;
        while i < payloads.len()
            invariant
                i <= payloads@.len(),
                payloads@.len() == expected.len(),
                payloads@.map_values(|d: Vec<u8>| d@) == expected,
                r@.len() == i,
                forall|j: int|
                    0 <= j < i ==> (#[trigger] r@[j]).0@ == expected[j] && r@[j].1@
                        == self.spec_topic(),
            decreases payloads@.len() - i,
        {
            let data = payloads[i].clone();
            assert(data@ == expected[i as int]) by {
                assert(payloads@.map_values(|d: Vec<u8>| d@)[i as int] == payloads@[i as int]@);
            }
            r.push((data, self.topic.clone()));
            i = i + 1;
        }
        r
    }
}

impl<Pub: Publisher> CommandPublisher<Pub> {
    /// Publishes each command that serialized, in order, to this publisher's
    /// topic; those that did not are skipped. The calls made are exactly those
    /// of `publish_plan`, one `publish(payload, Some(topic))` per pair, and a
    /// failed call does not stop the later ones. The result is what
    /// `first_failure` makes of the outcomes: the first failure, with nothing
    /// rolled back, or success when all went out. A batch with no serialized
    /// command publishes nothing and succeeds.
    pub fn publish_commands(&self, commands: Vec<Result<Vec<u8>, SerializeError>>) -> (r: Result<
        (),
        PublishError,
    >)
        ensures
            serialized_payloads(commands@).len() == 0 ==> r is Ok,
    {
        let plan = self.publish_plan(&commands);
        let mut outcomes: Vec<Result<(), PublishError>> = Vec::new();
        let mut i: usize = 0;
        while i < plan.len()
            invariant
                i <= plan@.len(),
                outcomes@.len() == i,
            decreases plan@.len() - i,
        {
            let data = plan[i].0.clone();
            let outcome = self.publisher.publish(data, Some(plan[i].1.as_str()));
            outcomes.push(outcome);
            i = i + 1;
        }
        first_failure(outcomes)
    }
}

} // verus!
