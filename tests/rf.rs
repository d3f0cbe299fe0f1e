use nrf70::control::sys_init_command;
use nrf70::rf::{
    derive_rf_parameters, from_ascii_hex_digit, hex_decode, nrf_wifi_phy_rf_params, nrf_wifi_tx_pwr_ceil_params,
    BoundedU8, RfParameters, CSP_PACKAGE_INFO,
};

fn board_ceilings() -> nrf_wifi_tx_pwr_ceil_params {
    nrf_wifi_tx_pwr_ceil_params {
        max_pwr_2g_dsss: 84,
        max_pwr_2g_mcs0: 64,
        max_pwr_2g_mcs7: 64,
        max_pwr_5g_low_mcs0: 36,
        max_pwr_5g_low_mcs7: 36,
        max_pwr_5g_mid_mcs0: 44,
        max_pwr_5g_mid_mcs7: 44,
        max_pwr_5g_high_mcs0: 52,
        max_pwr_5g_high_mcs7: 52,
    }
}

#[test]
fn ceilings_take_minimum_less_backoff() {
    // QFN package, test-program version 2: backoffs 3, 3, 4, 4, 4.
    let p = derive_rf_parameters(0, 0x0002_0000, 0, 0, &board_ceilings(), &RfParameters::default());
    let c = p.max_pwr_ceil;
    assert_eq!(c.max_dsss_pwr, 84 - 3); // min(84, 84)
    assert_eq!(c.max_lb_mcs7_pwr, 64 - 3); // min(64, 64)
    assert_eq!(c.max_lb_mcs0_pwr, 64 - 3);
    assert_eq!(c.max_hb_low_chan_mcs7_pwr, 36 - 4); // min(36, 52)
    assert_eq!(c.max_hb_mid_chan_mcs7_pwr, 44 - 4); // min(44, 52)
    assert_eq!(c.max_hb_high_chan_mcs7_pwr, 48 - 4); // min(52, 48)
    assert_eq!(c.max_hb_low_chan_mcs0_pwr, 36 - 4);
    assert_eq!(c.max_hb_mid_chan_mcs0_pwr, 44 - 4);
    assert_eq!(c.max_hb_high_chan_mcs0_pwr, 52 - 4); // min(52, 56)
}

#[test]
fn csp_package_and_unknown_version() {
    let p = derive_rf_parameters(CSP_PACKAGE_INFO, 0x0009_0000, 0, 0, &board_ceilings(), &RfParameters::default());
    assert_eq!(p.max_pwr_ceil.max_dsss_pwr, 80); // min(84, 80), no backoff
    assert_eq!(p.max_pwr_ceil.max_hb_high_chan_mcs7_pwr, 44);
    assert_eq!(p.xo_freq_offset, 0x28);
}

#[test]
fn otp_overrides_crystal_offset() {
    let p = derive_rf_parameters(0, 0, 0x1, 0x37, &board_ceilings(), &RfParameters::default());
    assert_eq!(p.xo_freq_offset, 0x37);
    let p = derive_rf_parameters(0, 0, 0x1000, 0x37, &board_ceilings(), &RfParameters::default());
    assert_eq!(p.xo_freq_offset, 0x2A);
}

#[test]
fn calibration_bytes_land_in_phy_part() {
    let mut cal = RfParameters::default();
    cal.band_2g_lower_edge_backoff_dsss = BoundedU8::new(7).unwrap();
    cal.pcb_loss_5g_band3 = BoundedU8::new(4).unwrap();
    let p = derive_rf_parameters(0, 0, 0, 0, &board_ceilings(), &cal);
    assert_eq!(p.phy_params[113], 7);
    assert_eq!(p.phy_params[113 + 33], 4);
    let mut out = [0xFFu8; 40];
    cal.populate_slice(&mut out);
    assert_eq!(out[0], 7);
    assert_eq!(out[33], 4);
    assert_eq!(out[34], 0xFF);
}

#[test]
fn bounded_byte_rejects_out_of_range() {
    assert!(BoundedU8::<0, 4>::new(5).is_none());
    assert_eq!(BoundedU8::<0, 4>::new(4).unwrap().get(), 4);
    assert_eq!(BoundedU8::<2, 4>::default().get(), 2);
}

#[test]
fn hex_digits() {
    assert_eq!(from_ascii_hex_digit(b'7'), 7);
    assert_eq!(from_ascii_hex_digit(b'c'), 12);
    assert_eq!(from_ascii_hex_digit(b'F'), 15);
    assert_eq!(from_ascii_hex_digit(b'x'), 0);
    assert_eq!(hex_decode(b"0aFf7"), vec![0x0A, 0xFF]);
}

#[test]
fn default_block_and_init_command() {
    let p = nrf_wifi_phy_rf_params::default_from(0);
    let b = p.to_bytes();
    assert_eq!(b.len(), 200);
    assert_eq!(b[6], 0x2A);
    assert_eq!(b[15], 84);
    let c = sys_init_command(&p);
    assert_eq!(c.len(), 340);
    assert_eq!(u32::from_le_bytes([c[4], c[5], c[6], c[7]]), 340);
    assert_eq!(c[48], 0x2A);
    assert_eq!(c[242], 1);
}

#[test]
fn package_defaults_per_package() {
    let q = nrf_wifi_phy_rf_params::default_from(0);
    assert_eq!(q.syst_tx_pwr_offset, [3, 3, 3, 3]);
    assert_eq!(q.temp_volt_backoff[0], 80);
    let c = nrf_wifi_phy_rf_params::default_from(CSP_PACKAGE_INFO);
    assert_eq!(c.syst_tx_pwr_offset, [1, 1, 1, 1]);
    assert_eq!(c.temp_volt_backoff[0], 75);
    assert_eq!(c.pd_adjust_val, [0; 4]);
    assert_eq!(RfParameters::default().bytes(), [0u8; 34]);
}
