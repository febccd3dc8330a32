[package]
name = "minikernel"
version = "0.1.0"
edition = "2021"
publish = false

[dependencies]
num_cpus = "1"
object = "*"
cortex-m = "*"
cortex-m-rt = "*"
stm32f407g-disc = "*"
alloc-cortex-m = "*"
panic-halt = "*"
