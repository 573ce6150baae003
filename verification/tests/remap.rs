use bevy_ecs::entity::{Entity, EntityMap, MapEntitiesError};
use bevy_hierarchy::{Children, EntityId, EntityRemapper, RemapError};

fn id(bits: u64) -> EntityId {
    EntityId::from_bits(bits)
}

fn map_of(pairs: &[(u64, u64)]) -> EntityMap {
    let mut map = EntityMap::default();
    for &(from, to) in pairs {
        map.insert(Entity::from_bits(from), Entity::from_bits(to));
    }
    map
}

fn bits_of(children: &Children) -> Vec<u64> {
    children.iter().map(|e| e.to_bits()).collect()
}

#[test]
fn remap_replaces_every_child() {
    let mut children = Children::with(&[id(1), id(2)]);
    let map = map_of(&[(1, 101), (2, 102)]);
    assert_eq!(children.map_entities(&map), Ok(()));
    assert_eq!(bits_of(&children), vec![101, 102]);
}

#[test]
fn remap_keeps_positions() {
    let mut children = Children::with(&[id(3), id(1), id(2), id(1)]);
    let map = map_of(&[(1, 10), (2, 20), (3, 30), (4, 40)]);
    assert_eq!(children.map_entities(&map), Ok(()));
    assert_eq!(bits_of(&children), vec![30, 10, 20, 10]);
}

#[test]
fn remap_reads_generation_and_index() {
    let old = (7u64 << 32) | 5;
    let new = (9u64 << 32) | 5;
    let mut children = Children::with(&[id(old), id(5)]);
    let map = map_of(&[(old, new), (5, 6)]);
    assert_eq!(children.map_entities(&map), Ok(()));
    assert_eq!(bits_of(&children), vec![new, 6]);
}

#[test]
fn remap_stops_at_the_first_unmapped_child() {
    let mut children = Children::with(&[id(1), id(2)]);
    let map = map_of(&[(1, 101)]);
    assert_eq!(
        children.map_entities(&map),
        Err(RemapError::UnmappedEntity(id(2)))
    );
    assert_eq!(bits_of(&children), vec![101, 2]);
}

#[test]
fn remap_leaves_what_follows_the_unmapped_child() {
    let mut children = Children::with(&[id(1), id(2), id(3), id(4)]);
    let map = map_of(&[(1, 101), (3, 103), (4, 104)]);
    assert_eq!(
        children.map_entities(&map),
        Err(RemapError::UnmappedEntity(id(2)))
    );
    assert_eq!(bits_of(&children), vec![101, 2, 3, 4]);
}

#[test]
fn remap_reports_the_first_of_several_unmapped_children() {
    let mut children = Children::with(&[id(8), id(9)]);
    let map = map_of(&[(1, 101)]);
    assert_eq!(
        children.map_entities(&map),
        Err(RemapError::UnmappedEntity(id(8)))
    );
    assert_eq!(bits_of(&children), vec![8, 9]);
}

#[test]
fn remap_of_an_empty_list_succeeds() {
    let mut children = Children::default();
    assert_eq!(children.map_entities(&EntityMap::default()), Ok(()));
    assert!(children.is_empty());
    let mut children = Children::with(&[]);
    assert_eq!(children.map_entities(&map_of(&[(1, 2), (3, 4)])), Ok(()));
    assert!(children.is_empty());
}

#[test]
fn remap_against_an_empty_map_fails_on_the_first_child() {
    let mut children = Children::with(&[id(1), id(2)]);
    assert_eq!(
        children.map_entities(&EntityMap::default()),
        Err(RemapError::UnmappedEntity(id(1)))
    );
    assert_eq!(bits_of(&children), vec![1, 2]);
}

#[test]
fn remap_beyond_the_inline_capacity() {
    let given: Vec<EntityId> = (0..12u64).map(id).collect();
    let pairs: Vec<(u64, u64)> = (0..12u64).map(|b| (b, b + 1000)).collect();
    let mut children = Children::with(&given);
    assert_eq!(children.map_entities(&map_of(&pairs)), Ok(()));
    assert_eq!(bits_of(&children), (1000..1012u64).collect::<Vec<u64>>());
}

#[test]
fn remap_does_not_change_the_map() {
    let map = map_of(&[(1, 2), (2, 3)]);
    let mut children = Children::with(&[id(1), id(2)]);
    assert_eq!(children.map_entities(&map), Ok(()));
    assert_eq!(map.len(), 2);
    assert_eq!(map.get(Entity::from_bits(1)).ok(), Some(Entity::from_bits(2)));
    assert_eq!(map.get(Entity::from_bits(2)).ok(), Some(Entity::from_bits(3)));
}

#[test]
fn remap_is_not_chained_through_the_map() {
    let map = map_of(&[(1, 2), (2, 3)]);
    let mut children = Children::with(&[id(1), id(2)]);
    assert_eq!(children.map_entities(&map), Ok(()));
    assert_eq!(bits_of(&children), vec![2, 3]);
}

#[test]
fn rewrite_at_stores_what_was_found() {
    let mut children = Children::with(&[id(1), id(2), id(3)]);
    assert_eq!(children.rewrite_at(1, Ok(id(20))), Ok(()));
    assert_eq!(bits_of(&children), vec![1, 20, 3]);
    assert_eq!(children.rewrite_at(2, Ok(id(30))), Ok(()));
    assert_eq!(bits_of(&children), vec![1, 20, 30]);
}

#[test]
fn rewrite_at_reports_the_child_that_was_not_found() {
    let mut children = Children::with(&[id(1), id(2), id(3)]);
    let missing = MapEntitiesError::EntityNotFound(Entity::from_bits(2));
    assert_eq!(
        children.rewrite_at(1, Err(missing)),
        Err(RemapError::UnmappedEntity(id(2)))
    );
    assert_eq!(bits_of(&children), vec![1, 2, 3]);
}

#[test]
fn remap_error_carries_the_unmapped_identifier() {
    let error = RemapError::UnmappedEntity(id(5));
    let RemapError::UnmappedEntity(entity) = error;
    assert_eq!(entity.to_bits(), 5);
    assert_ne!(error, RemapError::UnmappedEntity(id(6)));
}
