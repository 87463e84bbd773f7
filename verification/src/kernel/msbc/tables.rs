// SPDX-License-Identifier: LGPL-2.1-or-later
//
// Copyright (C) 2017  Aurelien Jacobs <aurel@gnuage.org>
// Copyright (C) 2012-2013  Intel Corporation
// Copyright (C) 2008-2010  Nokia Corporation
// Copyright (C) 2004-2010  Marcel Holtmann <marcel@holtmann.org>
// Copyright (C) 2004-2005  Henryk Ploetz <henryk@ploetzli.ch>
// Copyright (C) 2005-2008  Brad Midgley <bmidgley@xmission.com>

//! Fixed-point coefficient tables of the eight-subband synthesis filterbank.
//!
//! Every entry is the 32-bit coefficient shifted right arithmetically by 14.

use vstd::prelude::*;

verus! {

/// Synthesis matrix: one row of eight coefficients per filterbank phase.
pub const SYNMATRIX8: [[i32; 8]; 16] = [
    [5792, -5793, -5793, 5792, 5792, -5793, -5793, 5792],
    [4551, -8035, 1598, 6811, -6812, -1599, 8034, -4552],
    [3134, -7569, 7568, -3135, -3135, 7568, -7569, 3134],
    [1598, -4552, 6811, -8035, 8034, -6812, 4551, -1599],
    [0, 0, 0, 0, 0, 0, 0, 0],
    [-1599, 4551, -6812, 8034, -8035, 6811, -4552, 1598],
    [-3135, 7568, -7569, 3134, 3134, -7569, 7568, -3135],
    [-4552, 8034, -1599, -6812, 6811, 1598, -8035, 4551],
    [-5793, 5792, 5792, -5793, -5793, 5792, 5792, -5793],
    [-6812, 1598, 8034, 4551, -4552, -8035, -1599, 6811],
    [-7569, -3135, 3134, 7568, 7568, 3134, -3135, -7569],
    [-8035, -6812, -4552, -1599, 1598, 4551, 6811, 8034],
    [-8192, -8192, -8192, -8192, -8192, -8192, -8192, -8192],
    [-8035, -6812, -4552, -1599, 1598, 4551, 6811, 8034],
    [-7569, -3135, 3134, 7568, 7568, 3134, -3135, -7569],
    [-6812, 1598, 8034, 4551, -4552, -8035, -1599, 6811],
];

/// Prototype window applied to the even taps.
pub const PROTO_80M0: [i32; 40] = [
    0, -1484, -17826, 17825, 1483,
    -42, -2105, -21754, 13942, 916,
    -90, -2742, -25579, 10243, 432,
    -146, -3342, -29150, 6844, 46,
    -216, -3842, -32314, 3837, -237,
    -299, -4170, -34935, 1288, -424,
    -388, -4253, -36898, -767, -523,
    -468, -4016, -38114, -2322, -552,
];

/// Prototype window applied to the odd taps.
pub const PROTO_80M1: [i32; 40] = [
    -528, -3392, -38524, -3392, -528,
    -552, -2322, -38114, -4016, -468,
    -523, -767, -36898, -4253, -388,
    -424, 1288, -34935, -4170, -299,
    -237, 3837, -32314, -3842, -216,
    46, 6844, -29150, -3342, -146,
    432, 10243, -25579, -2742, -90,
    916, 13942, -21754, -2105, -42,
];

/// Loudness offsets per subband at 16 kHz.
pub const SBC_OFFSET8_SF0: [i32; 8] = [-2, 0, 0, 0, 0, 0, 0, 1];

} // verus!
