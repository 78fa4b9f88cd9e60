[package]
name = "attractors"
version = "0.1.0"
edition = "2021"

[dependencies]
gnuplot = "0.0"
num = "0.4"
ode_solvers = "0.3"
rand = "0.8"
