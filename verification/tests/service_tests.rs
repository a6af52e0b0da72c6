use h1_transport::config::{PeerAddr, ServiceConfig};
use h1_transport::event::ExpectOutcome;
use h1_transport::model::State;
use h1_transport::readiness::{Probe, ReadyStep, Readiness};
use h1_transport::service::{
    ExpectHandler, H1Service, H1ServiceHandler, H1ServiceResponse, InitPoll, InitPolled,
    InitStage, InitStep, UpgradeHandler,
};

fn cfg() -> ServiceConfig {
    ServiceConfig::new(5000, 3000, 1000, false, None, 65536)
}

#[test]
fn with_config_has_no_upgrade_and_no_callback() {
    let f: H1Service<&str, ExpectHandler, UpgradeHandler, u8> = H1Service::with_config(cfg(), "app");
    assert_eq!(f.srv, "app");
    assert!(f.upgrade.is_none());
    assert!(f.on_connect_ext.is_none());
    assert_eq!(f.cfg.keep_alive, 5000);
}

#[test]
fn builders_replace_one_part_and_keep_the_rest() {
    let f: H1Service<&str, ExpectHandler, UpgradeHandler, u8> = H1Service::with_config(cfg(), "app");
    let f = f.expect("expect");
    assert_eq!(f.expect, "expect");
    assert_eq!(f.srv, "app");
    let f = f.upgrade(Some("upgrade"));
    assert_eq!(f.upgrade, Some("upgrade"));
    assert_eq!(f.expect, "expect");
    let f = f.on_connect_ext(Some(9u8));
    assert_eq!(f.on_connect_ext, Some(9));
    assert_eq!(f.upgrade, Some("upgrade"));
    assert_eq!(f.srv, "app");
    let f = f.upgrade::<u32>(None);
    assert!(f.upgrade.is_none());
    assert_eq!(f.on_connect_ext, Some(9));
    let f = f.on_connect_ext(None);
    assert!(f.on_connect_ext.is_none());
    assert_eq!(f.cfg.client_request_timeout, 3000);
}

#[test]
fn default_expect_service_lets_requests_continue() {
    assert_eq!(ExpectHandler.call(), ExpectOutcome::Continue);
}

#[test]
fn start_up_without_upgrade_polls_expect_then_service() {
    let f: H1Service<&str, ExpectHandler, UpgradeHandler, u8> = H1Service::with_config(cfg(), "app");
    let mut init: H1ServiceResponse<&str, &str, u8> = f.new_service();
    assert_eq!(init.stage(), InitStage::Expect);
    let step: InitStep<H1ServiceHandler<&str, &str, &str, u8>> =
        init.poll(InitPolled::Expect(InitPoll::Ready("expect-svc")));
    assert!(matches!(step, InitStep::Again));
    assert_eq!(init.stage(), InitStage::Service);
    match init.poll(InitPolled::Service(InitPoll::Ready("app-svc"))) {
        InitStep::Done(h) => {
            assert_eq!(*h.srv(), "app-svc");
            assert_eq!(*h.expect(), "expect-svc");
            assert!(h.upgrade().is_none());
            assert!(h.on_connect_ext().is_none());
            assert_eq!(h.config().keep_alive, 5000);
            assert!(!h.ready_seen());
        }
        _ => panic!("the handler is due"),
    }
}

#[test]
fn start_up_with_upgrade_fills_the_slots_in_order() {
    let f: H1Service<&str, ExpectHandler, UpgradeHandler, u8> = H1Service::with_config(cfg(), "app");
    let f = f.upgrade(Some("upgrade-factory")).on_connect_ext(Some(3u8));
    let mut init: H1ServiceResponse<&str, &str, u8> = f.new_service();
    assert_eq!(init.stage(), InitStage::Expect);
    let step: InitStep<H1ServiceHandler<&str, &str, &str, u8>> =
        init.poll(InitPolled::Expect(InitPoll::Pending));
    assert!(matches!(step, InitStep::Pending));
    assert_eq!(init.stage(), InitStage::Expect);
    let step: InitStep<H1ServiceHandler<&str, &str, &str, u8>> =
        init.poll(InitPolled::Expect(InitPoll::Ready("x")));
    assert!(matches!(step, InitStep::Again));
    assert_eq!(init.stage(), InitStage::Upgrade);
    let step: InitStep<H1ServiceHandler<&str, &str, &str, u8>> =
        init.poll(InitPolled::Upgrade(InitPoll::Pending));
    assert!(matches!(step, InitStep::Pending));
    assert_eq!(init.stage(), InitStage::Upgrade);
    let step: InitStep<H1ServiceHandler<&str, &str, &str, u8>> =
        init.poll(InitPolled::Upgrade(InitPoll::Ready("u")));
    assert!(matches!(step, InitStep::Again));
    assert_eq!(init.stage(), InitStage::Service);
    let step = init.poll(InitPolled::Service(InitPoll::Pending::<&str>));
    assert!(matches!(step, InitStep::Pending));
    assert_eq!(init.stage(), InitStage::Service);
    match init.poll(InitPolled::Service(InitPoll::Ready("s"))) {
        InitStep::Done(h) => {
            assert_eq!(*h.srv(), "s");
            assert_eq!(*h.expect(), "x");
            assert_eq!(*h.upgrade(), Some("u"));
            assert_eq!(*h.on_connect_ext(), Some(3));
        }
        _ => panic!("the handler is due"),
    }
}

#[test]
fn failed_start_up_builds_no_handler() {
    let f: H1Service<&str, ExpectHandler, UpgradeHandler, u8> = H1Service::with_config(cfg(), "app");
    let mut init: H1ServiceResponse<&str, &str, u8> = f.new_service();
    let step: InitStep<H1ServiceHandler<&str, &str, &str, u8>> =
        init.poll(InitPolled::Expect(InitPoll::Failed));
    assert!(matches!(step, InitStep::Failed));
    let mut init: H1ServiceResponse<&str, &str, u8> = f.new_service();
    let _: InitStep<H1ServiceHandler<&str, &str, &str, u8>> =
        init.poll(InitPolled::Expect(InitPoll::Ready("x")));
    let step = init.poll(InitPolled::Service(InitPoll::Failed::<&str>));
    assert!(matches!(step, InitStep::Failed));
}

#[test]
fn handler_remembers_a_ready_round() {
    let mut h: H1ServiceHandler<u8, u8, u8, u8> = H1ServiceHandler::new(cfg(), 1, 2, None, None);
    assert!(!h.ready_seen());
    assert_eq!(h.poll_ready(&[]), ReadyStep::Poll(Probe::Expect));
    assert_eq!(h.poll_ready(&[Readiness::Ready]), ReadyStep::Poll(Probe::Service));
    assert_eq!(h.poll_ready(&[Readiness::Ready, Readiness::Pending]), ReadyStep::Pending);
    assert!(!h.ready_seen());
    assert_eq!(h.poll_ready(&[Readiness::Ready, Readiness::Ready]), ReadyStep::Ready);
    assert!(h.ready_seen());
    assert_eq!(h.poll_ready(&[Readiness::Pending, Readiness::Ready]), ReadyStep::Pending);
    assert!(h.ready_seen());
}

#[test]
fn handler_with_upgrade_polls_three_services() {
    let mut h: H1ServiceHandler<u8, u8, u8, u8> = H1ServiceHandler::new(cfg(), 1, 2, Some(3), None);
    assert_eq!(
        h.poll_ready(&[Readiness::Ready, Readiness::Ready]),
        ReadyStep::Poll(Probe::Upgrade)
    );
    assert!(!h.ready_seen());
    assert_eq!(
        h.poll_ready(&[Readiness::Ready, Readiness::Ready, Readiness::Failed]),
        ReadyStep::Failed(Probe::Upgrade)
    );
    assert!(!h.ready_seen());
    assert_eq!(
        h.poll_ready(&[Readiness::Ready, Readiness::Ready, Readiness::Ready]),
        ReadyStep::Ready
    );
    assert!(h.ready_seen());
}

#[test]
fn accepted_connection_awaits_its_first_request() {
    let mut h: H1ServiceHandler<u8, u8, u8, u8> = H1ServiceHandler::new(cfg(), 1, 2, None, None);
    assert_eq!(h.poll_ready(&[Readiness::Ready, Readiness::Ready]), ReadyStep::Ready);
    let peer = Some(PeerAddr::V6(1, 443));
    let d = h.call("stream", peer, 250);
    assert_eq!(d.state(), State::Normal);
    assert_eq!(d.peer_addr(), peer);
    assert_eq!(*d.io(), "stream");
    assert_eq!(d.ka_timer(), Some(3250));
    assert_eq!(d.ka_expire(), 3250);
    assert_eq!(d.deadline(), Some(3250));
    assert_eq!(d.read_len(), 0);
    assert_eq!(d.write_len(), 0);
    assert_eq!(d.pending_messages(), 0);
    assert!(d.payload().is_none());
    assert!(d.outcome().is_none());
    let flags = d.flags();
    assert!(flags.keepalive);
    assert!(flags.polled);
    assert!(!flags.started);
    assert!(!flags.shutdown);
    assert!(!flags.read_disconnect);
    assert!(!flags.write_disconnect);
    assert!(!flags.upgrade_pending);
    assert!(d.can_read());
    assert!(!d.can_decode());
    assert!(!d.can_shutdown());
    assert!(!d.is_terminated());
    assert_eq!(d.read_capacity(), 65536);
}
