use nn::dtype::Dtype;

#[test]
fn byte_widths_are_canonical() {
    assert_eq!(Dtype::F32.nbytes(), 4);
    assert_eq!(Dtype::F16.nbytes(), 2);
    assert_eq!(Dtype::BF16.nbytes(), 2);
    assert_eq!(Dtype::F64.nbytes(), 8);
    assert_eq!(Dtype::I8.nbytes(), 1);
    assert_eq!(Dtype::I16.nbytes(), 2);
    assert_eq!(Dtype::I32.nbytes(), 4);
    assert_eq!(Dtype::I64.nbytes(), 8);
    assert_eq!(Dtype::U8.nbytes(), 1);
    assert_eq!(Dtype::U16.nbytes(), 2);
    assert_eq!(Dtype::U32.nbytes(), 4);
    assert_eq!(Dtype::U64.nbytes(), 8);
    assert_eq!(Dtype::Bool.nbytes(), 1);
}
