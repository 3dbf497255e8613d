use mc173::entities::EntityTable;
use mc173::geom::BlockPos;
use mc173::rand::JavaRandom;
use mc173::tick::{
    keep_path, pickup_targets, plan_candidates, tick_fire, tick_item_timers, tick_living_state, tick_painting,
    LivingTimers, PickupKind,
};

#[test]
fn living_timers_decay_and_death_removes_after_twenty_ticks() {
    let mut timers = LivingTimers { attack_time: 2, hurt_time: 0, death_time: 0 };
    assert!(!tick_living_state(&mut timers, 5));
    assert_eq!(timers, LivingTimers { attack_time: 1, hurt_time: 0, death_time: 0 });
    let mut removed_at = None;
    for t in 1..=30 {
        if tick_living_state(&mut timers, 0) && removed_at.is_none() {
            removed_at = Some(t);
        }
    }
    assert_eq!(removed_at, Some(21));
    assert_eq!(timers.attack_time, 0);
}

#[test]
fn fire_burns_down_unless_immune() {
    assert_eq!(tick_fire(0, false), 0);
    assert_eq!(tick_fire(40, false), 39);
    assert_eq!(tick_fire(40, true), 0);
}

#[test]
fn item_despawns_after_five_minutes() {
    let mut frozen = 10;
    assert!(!tick_item_timers(&mut frozen, 1));
    assert_eq!(frozen, 9);
    let mut zero = 0;
    assert!(!tick_item_timers(&mut zero, 5999));
    assert_eq!(zero, 0);
    assert!(tick_item_timers(&mut zero, 6000));
}

#[test]
fn painting_checked_every_hundred_ticks() {
    let mut count = 0;
    let checks: Vec<u32> = (1..=250).filter(|_| tick_painting(&mut count)).collect();
    assert_eq!(checks, vec![100, 200]);
    assert_eq!(count, 50);
}

#[test]
fn pickup_collects_ready_items_and_stuck_arrows() {
    let nearby = vec![
        (1, PickupKind::Item { frozen_ticks: 0 }),
        (2, PickupKind::Item { frozen_ticks: 3 }),
        (3, PickupKind::Arrow { stuck: true }),
        (4, PickupKind::Arrow { stuck: false }),
        (5, PickupKind::Other),
        (6, PickupKind::Item { frozen_ticks: 0 }),
    ];
    assert_eq!(pickup_targets(&nearby), vec![1, 3, 6]);
    assert!(pickup_targets(&Vec::new()).is_empty());
}

#[test]
fn creature_plans_with_the_legacy_draws() {
    let origin = BlockPos::new(0, 65, 0);
    let mut rand = JavaRandom::new(1);
    let mut reference = JavaRandom::new(1);
    let mut plans = 0;
    for _ in 0..1000 {
        let planned = plan_candidates(&mut rand, false, origin);
        if reference.next_int_bounded(80) == 0 {
            let c = planned.expect("a plan was drawn");
            assert_eq!(c.len(), 10);
            for p in c {
                let dx = reference.next_int_bounded(13) - 6;
                let dy = reference.next_int_bounded(7) - 3;
                let dz = reference.next_int_bounded(13) - 6;
                assert_eq!(p, BlockPos::new(dx, 65 + dy, dz));
            }
            plans += 1;
        } else {
            assert!(planned.is_none());
        }
    }
    assert!(plans >= 1);
    assert_eq!(rand.state(), reference.state());
}

#[test]
fn creature_with_a_path_replans_one_time_in_twenty() {
    let mut rand = JavaRandom::new(9);
    let mut replans = 0;
    for _ in 0..2000 {
        let mut reference = JavaRandom::from_state(rand.state());
        let expected = reference.next_int_bounded(20) == 0;
        let planned = plan_candidates(&mut rand, true, BlockPos::new(5, 5, 5));
        assert_eq!(planned.is_some(), expected);
        if expected {
            replans += 1;
        } else {
            assert_eq!(rand.state(), reference.state());
        }
    }
    assert!(replans > 50 && replans < 200);
}

#[test]
fn entities_reside_in_one_chunk() {
    let mut table: EntityTable<&str> = EntityTable::new();
    let a = table.spawn("pig", 0, 0);
    let b = table.spawn("cow", 1, 0);
    let c = table.spawn("item", 0, 0);
    assert_eq!((a, b, c), (0, 1, 2));
    assert_eq!(table.in_chunk(0, 0), vec![a, c]);
    assert_eq!(table.in_chunk(1, 0), vec![b]);
    assert!(table.relocate(a, 1, 0));
    assert_eq!(table.in_chunk(0, 0), vec![c]);
    assert_eq!(table.in_chunk(1, 0), vec![a, b]);
    assert!(!table.relocate(99, 0, 0));
    let slot = table.slot_of(b).unwrap();
    assert_eq!(table.id_at(slot), b);
    assert_eq!(table.chunk_at(slot), (1, 0));
    let taken = table.take(slot);
    assert_eq!(taken, Some("cow"));
    assert!(table.get(slot).is_none());
    table.restore(slot, "cow");
    assert_eq!(table.get(slot), Some(&"cow"));
    assert_eq!(table.len(), 3);
}

#[test]
fn creature_forgets_its_path_one_time_in_a_hundred() {
    let mut rand = JavaRandom::new(2);
    let mut reference = JavaRandom::new(2);
    let mut forgotten = 0;
    for _ in 0..1000 {
        let keep = keep_path(&mut rand);
        assert_eq!(keep, reference.next_int_bounded(100) != 0);
        if !keep {
            forgotten += 1;
        }
    }
    assert!(forgotten > 0 && forgotten < 30);
}

#[test]
fn removed_entity_leaves_the_table() {
    let mut table: EntityTable<u8> = EntityTable::new();
    let a = table.spawn(1, 0, 0);
    let b = table.spawn(2, 0, 0);
    let c = table.spawn(3, 1, 1);
    assert_eq!(table.remove(b), Some(Some(2)));
    assert_eq!(table.remove(b), None);
    assert_eq!(table.len(), 2);
    assert_eq!(table.in_chunk(0, 0), vec![a]);
    assert_eq!(table.slot_of(c), Some(1));
    assert_eq!(table.spawn(4, 0, 0), 3);
}
