use glcamera::shader::Shader;

#[test]
fn shader_keeps_its_program_handle() {
    let s = Shader::from_program(7);
    assert_eq!(s.id, 7);
    assert_eq!(s.program_id(), 7);
}
