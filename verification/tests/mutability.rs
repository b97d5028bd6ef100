use eventcast::mutability::Person;
use eventcast::mutability::World;

#[test]
fn mutability_example() {
    let mut world = World {
        friend: Person::new(0, 6),
        enemy: Person::new(4, 1),
        frenemies: vec![Person::new(0, 7), Person::new(3, 0)],
        siblings: vec![Person::new(0, 10), Person::new(7, 0)],
    };

    world.siblings[0].set_sibling(1);
    world.siblings[1].set_sibling(0);

    assert_eq!(10, world.enemy.health());
    world.friend.attack(&mut world.enemy);
    assert_eq!(8, world.enemy.health());

    assert_eq!(10, world.frenemies[1].health());
    // A Person is a plain copyable value, so an attacker read out of the
    // vector can strike another slot of the same vector.
    let frenemy_0: Person = world.frenemies[0];
    frenemy_0.attack(&mut world.frenemies[1]);
    assert_eq!(6, world.frenemies[1].health());

    assert_eq!(10, world.siblings[1].health());
    let sibling_0: Person = world.siblings[0];
    sibling_0.attack_sibling(&mut world.siblings).unwrap();
    assert_eq!(7, world.siblings[1].health());
}

#[test]
fn attack_without_sibling_is_an_error() {
    let loner = Person::new(1, 2);
    let mut others = vec![Person::new(0, 0)];
    assert_eq!(Err(()), loner.attack_sibling(&mut others));
    assert_eq!(10, others[0].health());
}

#[test]
fn armor_absorbs_weak_attacks() {
    let weak = Person::new(0, 3);
    let mut tank = Person::new(5, 0);
    weak.attack(&mut tank);
    assert_eq!(10, tank.health());
}
