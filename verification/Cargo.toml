[package]
name = "stack_vm_jit"
version = "0.1.0"
edition = "2021"
publish = false
