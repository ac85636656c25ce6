use geng::{Access, ComponentStorage, Filter, Id, Kind, Query, QueryError, World};

const A: Kind = Kind(0);
const B: Kind = Kind(1);
const C: Kind = Kind(2);

fn has(k: Kind) -> Filter {
    Filter::Has(k)
}

#[test]
fn storage_insert_replace_remove() {
    let mut s: ComponentStorage<i32> = ComponentStorage::new();
    assert_eq!(s.insert(Id(3), 10), None);
    assert_eq!(s.insert(Id(3), 11), Some(10));
    assert_eq!(s.insert(Id(0), 5), None);
    assert_eq!(s.get(Id(3)), Some(&11));
    assert_eq!(s.get(Id(1)), None);
    assert_eq!(s.get(Id(100)), None);
    assert!(s.contains(Id(0)));
    assert_eq!(s.ids(), vec![Id(0), Id(3)]);
    assert_eq!(s.remove(Id(3)), Some(11));
    assert_eq!(s.remove(Id(3)), None);
    assert_eq!(s.remove(Id(1000)), None);
    assert_eq!(s.ids(), vec![Id(0)]);
}

#[test]
fn storage_get_mut_changes_in_place() {
    let mut s: ComponentStorage<i32> = ComponentStorage::new();
    s.insert(Id(2), 1);
    if let Some(v) = s.get_mut(Id(2)) {
        *v += 41;
    }
    assert_eq!(s.get(Id(2)), Some(&42));
    assert!(s.get_mut(Id(5)).is_none());
}

#[test]
fn spawn_issues_increasing_ids() {
    let mut w: World<i32> = World::new();
    let a = w.spawn();
    let b = w.spawn();
    assert_eq!(a, Id(0));
    assert_eq!(b, Id(1));
    assert!(w.is_alive(a));
    assert!(w.is_alive(b));
    assert_eq!(w.live_ids(), vec![a, b]);
}

#[test]
fn last_write_wins() {
    let mut w: World<i32> = World::new();
    let e = w.spawn();
    assert_eq!(w.attach(e, A, 1), None);
    assert_eq!(w.attach(e, A, 2), Some(1));
    assert_eq!(w.attach(e, B, 7), None);
    assert_eq!(w.detach(e, A), Some(2));
    assert_eq!(w.get(e, A), None);
    assert_eq!(w.attach(e, A, 3), None);
    assert_eq!(w.get(e, A), Some(&3));
    assert_eq!(w.get(e, B), Some(&7));
    assert_eq!(w.detach(e, C), None);
}

#[test]
fn attach_detach_round_trip() {
    let mut w: World<i32> = World::new();
    let e = w.spawn();
    w.attach(e, A, 9);
    assert_eq!(w.get(e, A), Some(&9));
    assert_eq!(w.detach(e, A), Some(9));
    assert_eq!(w.get(e, A), None);
}

#[test]
fn despawn_clears_every_kind_and_is_not_reused() {
    let mut w: World<i32> = World::new();
    let e = w.spawn();
    let f = w.spawn();
    w.attach(e, A, 1);
    w.attach(e, C, 3);
    w.attach(f, A, 4);
    w.despawn(e);
    assert!(!w.is_alive(e));
    assert_eq!(w.get(e, A), None);
    assert_eq!(w.get(e, B), None);
    assert_eq!(w.get(e, C), None);
    assert_eq!(w.get(f, A), Some(&4));
    let g = w.spawn();
    assert_ne!(g, e);
    assert_ne!(g, f);
    assert_eq!(g, Id(2));
}

#[test]
fn despawn_twice_is_despawn_once() {
    let mut w: World<i32> = World::new();
    let e = w.spawn();
    let f = w.spawn();
    w.attach(e, A, 1);
    w.attach(f, A, 2);
    w.despawn(e);
    let after_once = (w.live_ids(), w.ids_with(A));
    w.despawn(e);
    assert_eq!((w.live_ids(), w.ids_with(A)), after_once);
    w.despawn(Id(77));
    assert_eq!((w.live_ids(), w.ids_with(A)), after_once);
}

#[test]
fn dead_entities_get_nothing() {
    let mut w: World<i32> = World::new();
    assert_eq!(w.attach(Id(5), A, 1), None);
    assert_eq!(w.get(Id(5), A), None);
    let e = w.spawn();
    w.despawn(e);
    assert_eq!(w.attach(e, A, 1), None);
    assert!(!w.has(e, A));
}

#[test]
fn get_mut_writes_through() {
    let mut w: World<i32> = World::new();
    let e = w.spawn();
    w.attach(e, B, 10);
    *w.get_mut(e, B).unwrap() *= 3;
    assert_eq!(w.get(e, B), Some(&30));
    assert!(w.get_mut(e, A).is_none());
}

fn four_entities(w: &mut World<i32>) -> (Id, Id, Id, Id) {
    let e1 = w.spawn();
    let e2 = w.spawn();
    let e3 = w.spawn();
    let e4 = w.spawn();
    w.attach(e1, A, 1);
    w.attach(e1, B, 1);
    w.attach(e2, A, 2);
    w.attach(e3, B, 3);
    w.attach(e4, A, 4);
    w.attach(e4, B, 4);
    w.attach(e4, C, 4);
    (e1, e2, e3, e4)
}

#[test]
fn filter_has_a_and_has_b() {
    let mut w: World<i32> = World::new();
    let (e1, _e2, _e3, e4) = four_entities(&mut w);
    let q = Query::new(vec![], has(A).and(has(B))).unwrap();
    assert_eq!(q.run(&w), vec![e1, e4]);
    let by_access = w.query(vec![Access::Read(A), Access::Write(B)], Filter::Always).unwrap();
    assert_eq!(by_access, vec![e1, e4]);
}

#[test]
fn filter_not_and_or() {
    let mut w: World<i32> = World::new();
    let (e1, e2, e3, e4) = four_entities(&mut w);
    let not_c = w.query(vec![Access::Read(A)], Filter::Not(C)).unwrap();
    assert_eq!(not_c, vec![e1, e2]);
    let a_or_c = w.query(vec![], has(B).or(has(C))).unwrap();
    assert_eq!(a_or_c, vec![e1, e3, e4]);
    let nothing_of_b = w.query(vec![], Filter::Not(B)).unwrap();
    assert_eq!(nothing_of_b, vec![e2]);
    assert!(Filter::Not(C).matches(&w, e1));
    assert!(!Filter::Not(C).matches(&w, e4));
}

#[test]
fn aliasing_accesses_are_refused() {
    let w: World<i32> = World::new();
    assert_eq!(
        w.query(vec![Access::Write(A), Access::Write(A)], Filter::Always),
        Err(QueryError::Conflict(A))
    );
    assert_eq!(
        w.query(vec![Access::Read(B), Access::Read(A), Access::Write(B)], Filter::Always),
        Err(QueryError::Conflict(B))
    );
    assert!(Query::new(vec![Access::Write(C), Access::Read(C)], Filter::Always).is_err());
    assert!(Query::new(vec![Access::Read(A), Access::Read(A)], Filter::Always).is_ok());
    assert!(Query::new(vec![Access::Write(A), Access::Write(B)], Filter::Always).is_ok());
}

#[test]
fn disjoint_queries_interleave() {
    let mut w: World<i32> = World::new();
    let (e1, e2, e3, e4) = four_entities(&mut w);
    let qa = Query::new(vec![Access::Write(A)], Filter::Always).unwrap();
    let qb = Query::new(vec![Access::Read(B)], Filter::Not(C)).unwrap();
    let before_b = qb.run(&w);
    assert_eq!(before_b, vec![e1, e3]);
    for id in qa.run(&w) {
        *w.get_mut(id, A).unwrap() += 100;
        assert_eq!(qb.run(&w), before_b);
    }
    w.detach(e2, A);
    w.attach(e3, A, 0);
    assert_eq!(qb.run(&w), before_b);
    assert_eq!(qa.run(&w), vec![e1, e3, e4]);
    assert_eq!(w.get(e1, A), Some(&101));
}

#[test]
fn query_over_empty_world() {
    let w: World<i32> = World::new();
    assert_eq!(w.query(vec![Access::Read(A)], Filter::Always), Ok(vec![]));
    assert_eq!(w.query(vec![], Filter::Always), Ok(vec![]));
}

#[test]
fn query_admits_matches_run() {
    let mut w: World<i32> = World::new();
    let (e1, e2, _e3, _e4) = four_entities(&mut w);
    let q = Query::new(vec![Access::Read(A), Access::Read(B)], Filter::Always).unwrap();
    assert!(q.admits(&w, e1));
    assert!(!q.admits(&w, e2));
    assert!(!q.admits(&w, Id(40)));
}

#[test]
fn storage_iter_pairs_ids_with_values() {
    let mut s: ComponentStorage<&str> = ComponentStorage::new();
    s.insert(Id(4), "four");
    s.insert(Id(1), "one");
    let pairs: Vec<(Id, &&str)> = s.iter();
    assert_eq!(pairs, vec![(Id(1), &"one"), (Id(4), &"four")]);
    assert!(ComponentStorage::<u8>::new().iter().is_empty());
}

#[test]
fn world_storage_of_a_kind() {
    let mut w: World<i32> = World::new();
    let e = w.spawn();
    assert!(w.storage(A).is_none());
    w.attach(e, A, 5);
    let s = w.storage(A).unwrap();
    assert_eq!(s.get(e), Some(&5));
    assert_eq!(w.next_raw(), 1);
    assert!(w.span(A) > 0);
    assert_eq!(w.span(B), 0);
}

#[test]
fn cursor_walks_live_matches() {
    let mut w: World<i32> = World::new();
    let (e1, e2, _e3, e4) = four_entities(&mut w);
    let q = Query::new(vec![Access::Read(A)], Filter::Always).unwrap();
    assert_eq!(q.next_from(&w, 0), Some(e1));
    assert_eq!(q.next_from(&w, e1.0 + 1), Some(e2));
    w.detach(e4, A);
    assert_eq!(q.next_from(&w, e2.0 + 1), None);
    let e5 = w.spawn();
    w.attach(e5, A, 5);
    assert_eq!(q.next_from(&w, e2.0 + 1), Some(e5));
    assert_eq!(e1.raw(), 0);
}

#[test]
fn all_of_a_tuple_of_filters() {
    let mut w: World<i32> = World::new();
    let (_e1, _e2, _e3, e4) = four_entities(&mut w);
    let f = Filter::all(vec![has(A), has(B), has(C)]);
    assert_eq!(w.query(vec![], f), Ok(vec![e4]));
    let everyone = w.query(vec![], Filter::all(vec![])).unwrap();
    assert_eq!(everyone.len(), 4);
}

#[test]
fn fetch_borrows_in_access_order() {
    let mut w: World<i32> = World::new();
    let e = w.spawn();
    let f = w.spawn();
    w.attach(e, A, 1);
    w.attach(e, B, 2);
    w.attach(f, B, 3);
    let q = Query::new(vec![Access::Read(B), Access::Read(A)], Filter::Always).unwrap();
    assert_eq!(q.fetch(&w, e), Some(vec![&2, &1]));
    assert_eq!(q.fetch(&w, f), None);
}
