use sd::messages::Message;
use sd::messages::MessageType;
use sd::process::ClientAction;
use sd::process::ClientEvent;
use sd::process::ClientPhase;
use sd::process::ProcessState;
use sd::process::critical_section_record;
use sd::scheduler::HandlerAction;
use sd::scheduler::SchedulerState;
use sd::sim::SimStep;
use sd::sim::Simulation;

fn holders(sim: &Simulation) -> usize {
    sim.clients
        .iter()
        .filter(|c| c.phase == ClientPhase::InCriticalSection)
        .count()
}

#[test]
fn request_from_42_is_enqueued_and_granted() {
    let raw: [u8; 10] = [49, 124, 52, 50, 10, 0, 0, 0, 0, 0];
    let message = Message::from_bytes(&raw).unwrap();
    assert_eq!(message.message_type, MessageType::Request);
    assert_eq!(message.sender, 42);

    let mut scheduler = SchedulerState::new();
    let action = scheduler.process_message(&message);
    assert_eq!(action, HandlerAction::GrantWhenFree);
    assert_eq!(scheduler.queue, vec![42]);

    assert!(scheduler.try_acquire());
    let reply = SchedulerState::grant_message().to_bytes().unwrap();
    let decoded = Message::from_bytes(&reply).unwrap();
    assert_eq!(decoded.message_type, MessageType::Grant);
    assert_eq!(decoded.sender, 0);
}

#[test]
fn release_frees_resource_and_pops_head() {
    let mut scheduler = SchedulerState::new();
    let request = Message::new(5, 1);
    assert_eq!(
        scheduler.process_message(&request),
        HandlerAction::GrantWhenFree
    );
    assert!(scheduler.try_acquire());
    assert!(scheduler.held);

    let release = Message::new(5, 3);
    assert_eq!(scheduler.process_message(&release), HandlerAction::Continue);
    assert!(!scheduler.held);
    assert!(scheduler.queue.is_empty());
}

#[test]
fn grant_or_unknown_closes_connection() {
    let mut scheduler = SchedulerState::new();
    assert_eq!(
        scheduler.process_message(&Message::new(3, 2)),
        HandlerAction::Close
    );
    assert_eq!(
        scheduler.process_message(&Message::new(3, 77)),
        HandlerAction::Close
    );
    assert!(scheduler.queue.is_empty());
    assert!(!scheduler.held);
}

#[test]
fn second_grant_deferred_until_first_release() {
    let mut sim = Simulation::new();
    sim.add_client(1, 1);
    sim.add_client(2, 1);

    assert!(sim.step(SimStep::Request(0)));
    assert!(sim.step(SimStep::Request(1)));
    assert_eq!(sim.scheduler.queue, vec![1, 2]);

    assert!(sim.step(SimStep::Grant(0)));
    assert_eq!(sim.clients[0].phase, ClientPhase::InCriticalSection);
    assert!(holders(&sim) <= 1);

    assert!(!sim.step(SimStep::Grant(1)));
    assert_eq!(sim.clients[1].phase, ClientPhase::AwaitingGrant);
    assert!(holders(&sim) <= 1);

    assert!(sim.step(SimStep::Release(0)));
    assert_eq!(sim.clients[0].phase, ClientPhase::Done);

    assert!(sim.step(SimStep::Grant(1)));
    assert_eq!(sim.clients[1].phase, ClientPhase::InCriticalSection);
    assert!(holders(&sim) <= 1);

    assert!(sim.step(SimStep::Release(1)));
    assert_eq!(sim.clients[1].phase, ClientPhase::Done);
    assert!(!sim.scheduler.held);
    assert!(sim.scheduler.queue.is_empty());
}

#[test]
fn single_client_every_request_is_granted() {
    let mut sim = Simulation::new();
    sim.add_client(7, 3);

    for _cycle in 0..3 {
        assert!(sim.step(SimStep::Request(0)));
        assert!(sim.step(SimStep::Grant(0)));
        assert!(sim.step(SimStep::Release(0)));
    }
    assert_eq!(sim.clients[0].phase, ClientPhase::Done);
    assert_eq!(sim.clients[0].counter, 3);
    assert!(!sim.clients[0].failed);
    assert!(!sim.scheduler.held);
    assert!(sim.scheduler.queue.is_empty());
}

#[test]
fn interleaving_never_grants_twice() {
    let mut sim = Simulation::new();
    sim.add_client(1, 2);
    sim.add_client(2, 2);
    sim.add_client(3, 2);

    let schedule = [
        SimStep::Request(0),
        SimStep::Request(1),
        SimStep::Grant(1),
        SimStep::Request(2),
        SimStep::Grant(0),
        SimStep::Grant(2),
        SimStep::Release(1),
        SimStep::Grant(2),
        SimStep::Request(1),
        SimStep::Release(2),
        SimStep::Grant(0),
        SimStep::Release(0),
        SimStep::Grant(1),
        SimStep::Release(1),
        SimStep::Request(0),
        SimStep::Grant(0),
        SimStep::Release(0),
        SimStep::Request(2),
        SimStep::Grant(2),
        SimStep::Release(2),
        SimStep::Request(1),
        SimStep::Grant(1),
        SimStep::Release(1),
    ];
    for step in schedule {
        let _ = sim.step(step);
        assert!(holders(&sim) <= 1);
        let queued = sim
            .clients
            .iter()
            .filter(|c| {
                c.phase == ClientPhase::AwaitingGrant
                    || c.phase == ClientPhase::InCriticalSection
            })
            .count();
        assert_eq!(sim.scheduler.queue.len(), queued);
    }
    for c in sim.clients.iter() {
        assert_eq!(c.phase, ClientPhase::Done);
        assert_eq!(c.counter, 2);
    }
}

#[test]
fn client_machine_follows_the_protocol() {
    let mut client = ProcessState::new(9, 1);
    assert_eq!(client.phase, ClientPhase::Idle);
    assert_eq!(client.next_action(), ClientAction::SendRequest);

    client.step(ClientEvent::RequestSent);
    assert_eq!(client.next_action(), ClientAction::AwaitFrame);

    client.step(ClientEvent::WouldBlock);
    assert_eq!(client.phase, ClientPhase::AwaitingGrant);

    client.step(ClientEvent::FrameReceived(Message::new(0, 3)));
    assert_eq!(client.phase, ClientPhase::AwaitingGrant);

    client.step(ClientEvent::FrameReceived(Message::new(0, 2)));
    assert_eq!(client.phase, ClientPhase::InCriticalSection);
    assert_eq!(client.next_action(), ClientAction::RunCriticalSection);

    client.step(ClientEvent::CriticalSectionDone);
    assert_eq!(client.next_action(), ClientAction::SendRelease);

    client.step(ClientEvent::ReleaseSent);
    assert_eq!(client.phase, ClientPhase::Done);
    assert_eq!(client.next_action(), ClientAction::Stop);
    assert_eq!(client.counter, 1);
    assert!(!client.failed);
}

#[test]
fn critical_section_record_format() {
    assert_eq!(
        critical_section_record("2023-05-01 10:00:00", 42),
        "2023-05-01 10:00:00 - Writing from 42\n"
    );
    assert_eq!(critical_section_record("", 0), " - Writing from 0\n");
    assert_eq!(
        critical_section_record("agora é tarde", 255),
        "agora é tarde - Writing from 255\n"
    );
}

#[test]
fn client_machine_failure_and_shutdown() {
    let mut closed = ProcessState::new(4, 2);
    closed.step(ClientEvent::RequestSent);
    closed.step(ClientEvent::ConnectionClosed);
    assert_eq!(closed.phase, ClientPhase::Done);
    assert!(!closed.failed);

    let mut failed = ProcessState::new(5, 2);
    failed.step(ClientEvent::RequestSent);
    failed.step(ClientEvent::IoError);
    assert_eq!(failed.phase, ClientPhase::Done);
    assert!(failed.failed);
}
