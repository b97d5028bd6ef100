use eventcast::lifetimes::Animal;

#[test]
fn borrow_struct_field() {
    {
        let animal = Animal { name: String::from("Foo") };
        let _: &String = animal.borrow_name();
    }
}
