use geyser_fanout::coordinator::Coordinator;
use geyser_fanout::events::{
    Message, MessageAccount, MessageAccountInfo, MessageBlock, MessageSlot, MessageTransaction,
    MessageTransactionInfo, Pubkey, Reward, Signature, SlotStatus, SubscribeUpdateSlotStatus,
};
use geyser_fanout::filters::{
    ConfigFilters, Filter, FilterError, RequestCriteria, RequestGroup, SubscribeRequest,
};
use geyser_fanout::grpc::{ConfigGrpc, GrpcService, SubscribeError};
use geyser_fanout::wire::UpdateOneof;

fn pk(b: u8) -> Vec<u8> {
    vec![b; 32]
}

fn limits() -> ConfigFilters {
    ConfigFilters {
        max_groups: 8,
        max_addresses: 8,
    }
}

fn account_event(pubkey: Vec<u8>, owner: Vec<u8>, slot: u64) -> Message {
    Message::Account(MessageAccount {
        account: MessageAccountInfo {
            pubkey: Pubkey::new(pubkey),
            lamports: 500,
            owner: Pubkey::new(owner),
            executable: false,
            rent_epoch: 2,
            data: vec![9, 8, 7],
            write_version: 42,
        },
        slot,
        is_startup: false,
    })
}

fn slot_event(slot: u64) -> Message {
    Message::Slot(MessageSlot::from_parts(slot, Some(slot - 1), SlotStatus::Processed))
}

fn block_event(slot: u64) -> Message {
    Message::Block(MessageBlock {
        slot,
        blockhash: "hash11".to_string(),
        rewards: vec![Reward {
            pubkey: "rewardee".to_string(),
            lamports: -3,
            post_balance: 77,
            commission: Some(5),
        }],
        block_time: Some(1_700_000_000),
        block_height: Some(90),
    })
}

fn account_request(name: &str, accounts: Vec<Vec<u8>>, owners: Vec<Vec<u8>>) -> SubscribeRequest {
    SubscribeRequest {
        groups: vec![RequestGroup {
            name: name.to_string(),
            criteria: RequestCriteria::Accounts { accounts, owners },
        }],
    }
}

#[test]
fn slot_conversion_copies_fields() {
    let m = slot_event(7);
    match UpdateOneof::from_message(&m) {
        UpdateOneof::Slot(w) => {
            assert_eq!(w.slot, 7);
            assert_eq!(w.parent, Some(6));
            assert!(matches!(w.status, SubscribeUpdateSlotStatus::Processed));
        }
        _ => panic!("wrong variant"),
    }
}

#[test]
fn slot_status_mapping_is_exhaustive() {
    let confirmed = MessageSlot::from_parts(1, None, SlotStatus::Confirmed);
    assert!(matches!(confirmed.status, SubscribeUpdateSlotStatus::Confirmed));
    assert_eq!(confirmed.parent, None);
    let rooted = MessageSlot::from_parts(2, Some(1), SlotStatus::Rooted);
    assert!(matches!(rooted.status, SubscribeUpdateSlotStatus::Rooted));
    let processed = MessageSlot::from_parts(3, Some(2), SlotStatus::Processed);
    assert!(matches!(processed.status, SubscribeUpdateSlotStatus::Processed));
}

#[test]
fn account_conversion_copies_fields() {
    let m = account_event(pk(1), pk(2), 11);
    match UpdateOneof::from_message(&m) {
        UpdateOneof::Account(w) => {
            assert_eq!(w.slot, 11);
            assert!(!w.is_startup);
            let i = w.account.expect("account info present");
            assert_eq!(i.pubkey, pk(1));
            assert_eq!(i.owner, pk(2));
            assert_eq!(i.lamports, 500);
            assert_eq!(i.rent_epoch, 2);
            assert_eq!(i.data, vec![9, 8, 7]);
            assert_eq!(i.write_version, 42);
            assert!(!i.executable);
        }
        _ => panic!("wrong variant"),
    }
}

#[test]
fn transaction_conversion_copies_fields() {
    let m = Message::Transaction(MessageTransaction {
        transaction: MessageTransactionInfo {
            signature: Signature { bytes: vec![4; 64] },
            is_vote: true,
            transaction: vec![1, 2, 3],
            meta: vec![4, 5],
        },
        slot: 13,
    });
    match UpdateOneof::from_message(&m) {
        UpdateOneof::Transaction(w) => {
            assert_eq!(w.slot, 13);
            let i = w.transaction.expect("transaction info present");
            assert_eq!(i.signature, vec![4; 64]);
            assert!(i.is_vote);
            assert_eq!(i.transaction, Some(vec![1, 2, 3]));
            assert_eq!(i.meta, Some(vec![4, 5]));
        }
        _ => panic!("wrong variant"),
    }
}

#[test]
fn block_conversion_copies_fields() {
    let m = block_event(21);
    match UpdateOneof::from_message(&m) {
        UpdateOneof::Block(w) => {
            assert_eq!(w.slot, 21);
            assert_eq!(w.blockhash, "hash11");
            assert_eq!(w.rewards.len(), 1);
            assert_eq!(w.rewards[0].pubkey, "rewardee");
            assert_eq!(w.rewards[0].lamports, -3);
            assert_eq!(w.rewards[0].post_balance, 77);
            assert_eq!(w.rewards[0].commission, Some(5));
            assert_eq!(w.block_time, Some(1_700_000_000));
            assert_eq!(w.block_height, Some(90));
        }
        _ => panic!("wrong variant"),
    }
}

#[test]
fn filter_rejects_too_many_groups() {
    let groups = (0..3)
        .map(|i| RequestGroup {
            name: format!("g{}", i),
            criteria: RequestCriteria::Slots,
        })
        .collect();
    let request = SubscribeRequest { groups };
    let limits = ConfigFilters {
        max_groups: 2,
        max_addresses: 8,
    };
    assert_eq!(
        Filter::new(&request, &limits).err(),
        Some(FilterError::TooManyGroups)
    );
}

#[test]
fn filter_rejects_too_many_addresses() {
    let request = account_request("a", vec![pk(1), pk(2), pk(3)], vec![]);
    let limits = ConfigFilters {
        max_groups: 8,
        max_addresses: 2,
    };
    assert_eq!(
        Filter::new(&request, &limits).err(),
        Some(FilterError::TooManyAddresses)
    );
}

#[test]
fn filter_rejects_duplicate_names() {
    let request = SubscribeRequest {
        groups: vec![
            RequestGroup {
                name: "same".to_string(),
                criteria: RequestCriteria::Slots,
            },
            RequestGroup {
                name: "same".to_string(),
                criteria: RequestCriteria::Blocks,
            },
        ],
    };
    assert_eq!(
        Filter::new(&request, &limits()).err(),
        Some(FilterError::DuplicateName)
    );
}

#[test]
fn filter_rejects_malformed_address() {
    let request = account_request("a", vec![vec![1, 2, 3]], vec![]);
    assert_eq!(
        Filter::new(&request, &limits()).err(),
        Some(FilterError::InvalidPubkey)
    );
}

#[test]
fn filter_matches_by_account_and_owner() {
    let request = SubscribeRequest {
        groups: vec![
            RequestGroup {
                name: "by_acct".to_string(),
                criteria: RequestCriteria::Accounts {
                    accounts: vec![pk(1)],
                    owners: vec![],
                },
            },
            RequestGroup {
                name: "by_owner".to_string(),
                criteria: RequestCriteria::Accounts {
                    accounts: vec![],
                    owners: vec![pk(2)],
                },
            },
            RequestGroup {
                name: "wildcard".to_string(),
                criteria: RequestCriteria::Accounts {
                    accounts: vec![],
                    owners: vec![],
                },
            },
        ],
    };
    let filter = Filter::new(&request, &limits()).expect("compiles");
    let names = filter.get_filters(&account_event(pk(1), pk(2), 5));
    assert_eq!(names, vec!["by_acct", "by_owner", "wildcard"]);
    let names = filter.get_filters(&account_event(pk(9), pk(2), 5));
    assert_eq!(names, vec!["by_owner", "wildcard"]);
    let names = filter.get_filters(&account_event(pk(9), pk(9), 5));
    assert_eq!(names, vec!["wildcard"]);
    assert!(filter.get_filters(&slot_event(5)).is_empty());
}

#[test]
fn filter_matches_votes_and_kinds() {
    let request = SubscribeRequest {
        groups: vec![
            RequestGroup {
                name: "slots".to_string(),
                criteria: RequestCriteria::Slots,
            },
            RequestGroup {
                name: "votes".to_string(),
                criteria: RequestCriteria::Transactions { vote: Some(true) },
            },
            RequestGroup {
                name: "blocks".to_string(),
                criteria: RequestCriteria::Blocks,
            },
        ],
    };
    let filter = Filter::new(&request, &limits()).expect("compiles");
    assert_eq!(filter.get_filters(&slot_event(3)), vec!["slots"]);
    assert_eq!(filter.get_filters(&block_event(3)), vec!["blocks"]);
    let non_vote = Message::Transaction(MessageTransaction {
        transaction: MessageTransactionInfo {
            signature: Signature { bytes: vec![0; 64] },
            is_vote: false,
            transaction: vec![],
            meta: vec![],
        },
        slot: 3,
    });
    assert!(filter.get_filters(&non_vote).is_empty());
    let vote = Message::Transaction(MessageTransaction {
        transaction: MessageTransactionInfo {
            signature: Signature { bytes: vec![0; 64] },
            is_vote: true,
            transaction: vec![],
            meta: vec![],
        },
        slot: 3,
    });
    assert_eq!(filter.get_filters(&vote), vec!["votes"]);
}

fn config(capacity: usize) -> ConfigGrpc {
    ConfigGrpc {
        channel_capacity: capacity,
        filters: limits(),
    }
}

#[test]
fn single_matching_event_reaches_one_subscriber() {
    let (mut service, _update_tx, _update_rx, mut clients_rx) = GrpcService::create(config(16));
    let mut rx = service
        .subscribe(&account_request("acct_p", vec![pk(1)], vec![]))
        .expect("accepted");
    let client = clients_rx.try_recv().expect("registration sent");
    let mut coordinator = Coordinator::new();
    coordinator.handle_registration(client);
    assert_eq!(coordinator.connections(), 1);

    for event in [
        slot_event(5),
        account_event(pk(1), pk(8), 5),
        account_event(pk(2), pk(8), 5),
        block_event(5),
    ] {
        let (lagged, closed) = coordinator.handle_message(&event);
        assert!(lagged.is_empty());
        assert!(closed.is_empty());
    }

    let update = rx.try_recv().expect("one delivery").expect("a data message");
    assert_eq!(update.filters, vec!["acct_p"]);
    match update.update_oneof.expect("payload present") {
        UpdateOneof::Account(w) => {
            assert_eq!(w.account.expect("info").pubkey, pk(1));
        }
        _ => panic!("wrong payload"),
    }
    assert!(rx.try_recv().is_err(), "no second delivery");
}

#[test]
fn slow_subscriber_is_evicted_and_skipped() {
    let (mut service, _update_tx, _update_rx, mut clients_rx) = GrpcService::create(config(1));
    let mut rx = service
        .subscribe(&SubscribeRequest {
            groups: vec![RequestGroup {
                name: "slots".to_string(),
                criteria: RequestCriteria::Slots,
            }],
        })
        .expect("accepted");
    let client = clients_rx.try_recv().expect("registration sent");
    let id = client.id;
    let mut coordinator = Coordinator::new();
    coordinator.handle_registration(client);

    let (lagged, closed) = coordinator.handle_message(&slot_event(1));
    assert!(lagged.is_empty() && closed.is_empty());

    let (lagged, closed) = coordinator.handle_message(&slot_event(2));
    assert_eq!(lagged.len(), 1, "full channel evicts");
    assert!(closed.is_empty());
    assert_eq!(lagged[0].id, id);
    assert!(!coordinator.has_client(id));
    assert_eq!(coordinator.connections(), 0);

    let (lagged, closed) = coordinator.handle_message(&slot_event(3));
    assert!(lagged.is_empty() && closed.is_empty());

    let first = rx.try_recv().expect("first delivery").expect("data");
    match first.update_oneof.expect("payload") {
        UpdateOneof::Slot(w) => assert_eq!(w.slot, 1),
        _ => panic!("wrong payload"),
    }
    assert!(rx.try_recv().is_err(), "nothing else was delivered");
}

#[test]
fn closed_subscriber_is_reclaimed_silently() {
    let (mut service, _update_tx, _update_rx, mut clients_rx) = GrpcService::create(config(4));
    let rx = service
        .subscribe(&SubscribeRequest {
            groups: vec![RequestGroup {
                name: "slots".to_string(),
                criteria: RequestCriteria::Slots,
            }],
        })
        .expect("accepted");
    drop(rx);
    let client = clients_rx.try_recv().expect("registration sent");
    let id = client.id;
    let mut coordinator = Coordinator::new();
    coordinator.handle_registration(client);
    assert_eq!(coordinator.connections(), 1);

    let (lagged, closed) = coordinator.handle_message(&slot_event(1));
    assert!(lagged.is_empty());
    assert_eq!(closed.len(), 1);
    assert_eq!(closed[0].id, id);
    assert_eq!(coordinator.connections(), 0);
    assert!(!coordinator.has_client(id));
}

#[test]
fn deliveries_preserve_ingestion_order() {
    let (mut service, _update_tx, _update_rx, mut clients_rx) = GrpcService::create(config(8));
    let mut rx = service
        .subscribe(&SubscribeRequest {
            groups: vec![RequestGroup {
                name: "slots".to_string(),
                criteria: RequestCriteria::Slots,
            }],
        })
        .expect("accepted");
    let client = clients_rx.try_recv().expect("registration sent");
    let mut coordinator = Coordinator::new();
    coordinator.handle_registration(client);

    for slot in 1..=3u64 {
        coordinator.handle_message(&slot_event(slot));
    }
    for slot in 1..=3u64 {
        let update = rx.try_recv().expect("delivered").expect("data");
        match update.update_oneof.expect("payload") {
            UpdateOneof::Slot(w) => assert_eq!(w.slot, slot),
            _ => panic!("wrong payload"),
        }
    }
    assert!(rx.try_recv().is_err());
}

#[test]
fn saturated_subscriber_does_not_disturb_others() {
    let (mut service, _update_tx, _update_rx, mut clients_rx) = GrpcService::create(config(1));
    let slots_request = SubscribeRequest {
        groups: vec![RequestGroup {
            name: "slots".to_string(),
            criteria: RequestCriteria::Slots,
        }],
    };
    let mut stuck_rx = service.subscribe(&slots_request).expect("accepted");
    let mut live_rx = service.subscribe(&slots_request).expect("accepted");
    let mut coordinator = Coordinator::new();
    coordinator.handle_registration(clients_rx.try_recv().expect("first registration"));
    coordinator.handle_registration(clients_rx.try_recv().expect("second registration"));
    assert_eq!(coordinator.connections(), 2);

    // The first subscriber never reads; the second drains after every event.
    for slot in 1..=3u64 {
        coordinator.handle_message(&slot_event(slot));
        let update = live_rx.try_recv().expect("delivered").expect("data");
        match update.update_oneof.expect("payload") {
            UpdateOneof::Slot(w) => assert_eq!(w.slot, slot),
            _ => panic!("wrong payload"),
        }
    }
    assert_eq!(coordinator.connections(), 1, "the saturated subscriber left");
    let first = stuck_rx.try_recv().expect("its one delivery").expect("data");
    match first.update_oneof.expect("payload") {
        UpdateOneof::Slot(w) => assert_eq!(w.slot, 1),
        _ => panic!("wrong payload"),
    }
    assert!(stuck_rx.try_recv().is_err());
}

#[test]
fn empty_filter_result_produces_no_side_effects() {
    let (mut service, _update_tx, _update_rx, mut clients_rx) = GrpcService::create(config(4));
    let mut rx = service
        .subscribe(&account_request("only_p", vec![pk(1)], vec![]))
        .expect("accepted");
    let client = clients_rx.try_recv().expect("registration sent");
    let id = client.id;
    let mut coordinator = Coordinator::new();
    coordinator.handle_registration(client);

    let (lagged, closed) = coordinator.handle_message(&slot_event(1));
    assert!(lagged.is_empty() && closed.is_empty());
    assert!(coordinator.has_client(id));
    assert_eq!(coordinator.connections(), 1);
    assert!(rx.try_recv().is_err(), "no message for a non-matching event");
}

#[test]
fn invalid_filter_is_rejected_before_any_registration() {
    let (mut service, _update_tx, _update_rx, mut clients_rx) = GrpcService::create(config(4));
    let coordinator = Coordinator::new();
    let before = coordinator.connections();
    let result = service.subscribe(&account_request("bad", vec![vec![1]], vec![]));
    match result {
        Err(SubscribeError::InvalidArgument(FilterError::InvalidPubkey)) => {}
        _ => panic!("expected an invalid-argument rejection"),
    }
    assert!(
        clients_rx.try_recv().is_err(),
        "no registration message was sent"
    );
    assert_eq!(coordinator.connections(), before, "gauge untouched");
}

#[test]
fn identities_are_unique_and_increasing() {
    let (mut service, _update_tx, _update_rx, mut clients_rx) = GrpcService::create(config(4));
    assert_eq!(service.next_subscriber_id(), 0);
    let _rx0 = service
        .subscribe(&account_request("a", vec![pk(1)], vec![]))
        .expect("accepted");
    // A rejected request still consumes an identity.
    let _ = service.subscribe(&account_request("bad", vec![vec![1]], vec![]));
    let _rx2 = service
        .subscribe(&account_request("b", vec![pk(2)], vec![]))
        .expect("accepted");
    assert_eq!(service.next_subscriber_id(), 3);
    let first = clients_rx.try_recv().expect("first registration");
    let second = clients_rx.try_recv().expect("second registration");
    assert_eq!(first.id, 0);
    assert_eq!(second.id, 2);
    assert!(clients_rx.try_recv().is_err());
}

#[test]
fn registration_failure_after_coordinator_gone() {
    let (mut service, _update_tx, _update_rx, clients_rx) = GrpcService::create(config(4));
    drop(clients_rx);
    let result = service.subscribe(&account_request("a", vec![pk(1)], vec![]));
    assert!(matches!(result, Err(SubscribeError::Internal)));
}
