use api_surface::samples::{
    bar, foo, sample_function, sample_function2, use_sample_struct2, MyTrait, SampleStruct,
    SampleStruct2,
};

struct Holder;

impl MyTrait for Holder {}

#[test]
fn sample_items_are_callable() {
    sample_function();
    sample_function2();
    use_sample_struct2();
    let x: u32 = 7;
    foo::<u32, u8>(&x);
    bar::<u32, u8>(&x);
    let _s = SampleStruct {};
    let _s2 = SampleStruct2 {};
    let _h = Holder;
}
