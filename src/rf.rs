//! RF parameters: the chip-package defaults, the per-deployment calibration
//! bytes, OTP overrides and the transmit power ceilings.
//!
//! The default tables are opaque calibration data selected by chip package.
use vstd::prelude::*;

verus! {

/// Package type word of the CSP package; any other value is the QFN package.
pub const CSP_PACKAGE_INFO: u32 = 0x11;
/// Mask of the test-program version in its OTP word.
pub const FT_PROG_VER_MASK: u32 = 0xF_0000;
/// OTP flag bits other than this one mark the XO calibration as valid.
pub const CALIB_XO_FLAG_MASK: u32 = 0x1000;
/// Length of the structured head of the RF parameter block.
pub const NRF_WIFI_RF_PARAMS_CONF_SIZE: usize = 42;
/// Length of the raw PHY part of the RF parameter block.
pub const PHY_PARAMS_LEN: usize = 158;
/// Length of the whole RF parameter block.
pub const NRF_WIFI_RF_PARAMS_SIZE: usize = 200;
/// Offset, in the whole block, of the first edge backoff byte.
pub const BAND_2G_LW_ED_BKF_DSSS_OFST: usize = 155;
/// Offset, in the PHY part, of the per-deployment calibration bytes.
pub const RF_PARAM_OFFSET: usize = 113;
/// Number of per-deployment calibration bytes.
pub const RF_PARAM_LENGTH: usize = 34;

/// A byte kept within `MIN..=MAX`.
#[derive(Debug, Clone, Copy)]
pub struct BoundedU8<const MIN: u8, const MAX: u8> {
    value: u8,
}

impl<const MIN: u8, const MAX: u8> BoundedU8<MIN, MAX> {
    /// The byte is the lower bound or lies within the bounds.
    #[verifier::type_invariant]
    spec fn inv(&self) -> bool {
        self.value == MIN || (MIN <= self.value && self.value <= MAX)
    }

    /// The byte.
    pub closed spec fn value(&self) -> u8 {
        self.value
    }

    /// The byte, which lies within the bounds.
    pub fn get(self) -> (r: u8)
        ensures
            r == self.value(),
            MIN <= MAX ==> MIN <= r <= MAX,
    {
        proof {
            use_type_invariant(&self);
        }
        self.value
    }

    /// `value`, if it lies within the bounds.
    pub fn new(value: u8) -> (r: Option<BoundedU8<MIN, MAX>>)
        ensures
            r is Some <==> MIN <= value <= MAX,
            r matches Some(b) ==> b.value() == value,
    {
        if MIN <= value && value <= MAX {
            Some(BoundedU8 { value })
        } else {
            None
        }
    }
}

impl<const MIN: u8, const MAX: u8> Default for BoundedU8<MIN, MAX> {
    /// The lower bound.
    fn default() -> (r: BoundedU8<MIN, MAX>)
        ensures
            r.value() == MIN,
    {
        BoundedU8 { value: MIN }
    }
}

/// The per-deployment RF calibration values.
#[derive(Debug, Clone)]
pub struct RfParameters {
    /// PCB loss for the 2.4 GHz band.
    pub pcb_loss_2g: BoundedU8<0, 4>,
    /// PCB loss for the 5 GHz band, 5150 MHz to 5350 MHz.
    pub pcb_loss_5g_band1: BoundedU8<0, 4>,
    /// PCB loss for the 5 GHz band, 5470 MHz to 5730 MHz.
    pub pcb_loss_5g_band2: BoundedU8<0, 4>,
    /// PCB loss for the 5 GHz band, 5730 MHz to 5895 MHz.
    pub pcb_loss_5g_band3: BoundedU8<0, 4>,
    /// Antenna gain for the 2.4 GHz band.
    pub ant_gain_2g: BoundedU8<0, 6>,
    /// Antenna gain for the 5 GHz band, 5150 MHz to 5350 MHz.
    pub ant_gain_5g_band1: BoundedU8<0, 6>,
    /// Antenna gain for the 5 GHz band, 5470 MHz to 5730 MHz.
    pub ant_gain_5g_band2: BoundedU8<0, 6>,
    /// Antenna gain for the 5 GHz band, 5730 MHz to 5895 MHz.
    pub ant_gain_5g_band3: BoundedU8<0, 6>,
    /// DSSS transmit power backoff (dB) at the lower edge of the 2.4 GHz band.
    pub band_2g_lower_edge_backoff_dsss: BoundedU8<0, 10>,
    /// HT/VHT transmit power backoff (dB) at the lower edge of the 2.4 GHz band.
    pub band_2g_lower_edge_backoff_ht: BoundedU8<0, 10>,
    /// HE transmit power backoff (dB) at the lower edge of the 2.4 GHz band.
    pub band_2g_lower_edge_backoff_he: BoundedU8<0, 10>,
    /// DSSS transmit power backoff (dB) at the upper edge of the 2.4 GHz band.
    pub band_2g_upper_edge_backoff_dsss: BoundedU8<0, 10>,
    /// HT/VHT transmit power backoff (dB) at the upper edge of the 2.4 GHz band.
    pub band_2g_upper_edge_backoff_ht: BoundedU8<0, 10>,
    /// HE transmit power backoff (dB) at the upper edge of the 2.4 GHz band.
    pub band_2g_upper_edge_backoff_he: BoundedU8<0, 10>,
    /// HT/VHT transmit power backoff (dB) at the lower edge of UNII-1.
    pub band_unii_1_lower_edge_backoff_ht: BoundedU8<0, 10>,
    /// HE transmit power backoff (dB) at the lower edge of UNII-1.
    pub band_unii_1_lower_edge_backoff_he: BoundedU8<0, 10>,
    /// HT/VHT transmit power backoff (dB) at the upper edge of UNII-1.
    pub band_unii_1_upper_edge_backoff_ht: BoundedU8<0, 10>,
    /// HE transmit power backoff (dB) at the upper edge of UNII-1.
    pub band_unii_1_upper_edge_backoff_he: BoundedU8<0, 10>,
    /// HT/VHT transmit power backoff (dB) at the lower edge of UNII-2A.
    pub band_unii_2a_lower_edge_backoff_ht: BoundedU8<0, 10>,
    /// HE transmit power backoff (dB) at the lower edge of UNII-2A.
    pub band_unii_2a_lower_edge_backoff_he: BoundedU8<0, 10>,
    /// HT/VHT transmit power backoff (dB) at the upper edge of UNII-2A.
    pub band_unii_2a_upper_edge_backoff_ht: BoundedU8<0, 10>,
    /// HE transmit power backoff (dB) at the upper edge of UNII-2A.
    pub band_unii_2a_upper_edge_backoff_he: BoundedU8<0, 10>,
    /// HT/VHT transmit power backoff (dB) at the lower edge of UNII-2C.
    pub band_unii_2c_lower_edge_backoff_ht: BoundedU8<0, 10>,
    /// HE transmit power backoff (dB) at the lower edge of UNII-2C.
    pub band_unii_2c_lower_edge_backoff_he: BoundedU8<0, 10>,
    /// HT/VHT transmit power backoff (dB) at the upper edge of UNII-2C.
    pub band_unii_2c_upper_edge_backoff_ht: BoundedU8<0, 10>,
    /// HE transmit power backoff (dB) at the upper edge of UNII-2C.
    pub band_unii_2c_upper_edge_backoff_he: BoundedU8<0, 10>,
    /// HT/VHT transmit power backoff (dB) at the lower edge of UNII-3.
    pub band_unii_3_lower_edge_backoff_ht: BoundedU8<0, 10>,
    /// HE transmit power backoff (dB) at the lower edge of UNII-3.
    pub band_unii_3_lower_edge_backoff_he: BoundedU8<0, 10>,
    /// HT/VHT transmit power backoff (dB) at the upper edge of UNII-3.
    pub band_unii_3_upper_edge_backoff_ht: BoundedU8<0, 10>,
    /// HE transmit power backoff (dB) at the upper edge of UNII-3.
    pub band_unii_3_upper_edge_backoff_he: BoundedU8<0, 10>,
    /// HT/VHT transmit power backoff (dB) at the lower edge of UNII-4.
    pub band_unii_4_lower_edge_backoff_ht: BoundedU8<0, 10>,
    /// HE transmit power backoff (dB) at the lower edge of UNII-4.
    pub band_unii_4_lower_edge_backoff_he: BoundedU8<0, 10>,
    /// HT/VHT transmit power backoff (dB) at the upper edge of UNII-4.
    pub band_unii_4_upper_edge_backoff_ht: BoundedU8<0, 10>,
    /// HE transmit power backoff (dB) at the upper edge of UNII-4.
    pub band_unii_4_upper_edge_backoff_he: BoundedU8<0, 10>,
}

impl Default for RfParameters {
    /// Every value at its lower bound, zero.
    fn default() -> (r: RfParameters)
        ensures
            r.pcb_loss_2g.value() == 0,
            r.pcb_loss_5g_band1.value() == 0,
            r.pcb_loss_5g_band2.value() == 0,
            r.pcb_loss_5g_band3.value() == 0,
            r.ant_gain_2g.value() == 0,
            r.ant_gain_5g_band1.value() == 0,
            r.ant_gain_5g_band2.value() == 0,
            r.ant_gain_5g_band3.value() == 0,
            r.band_2g_lower_edge_backoff_dsss.value() == 0,
            r.band_2g_lower_edge_backoff_ht.value() == 0,
            r.band_2g_lower_edge_backoff_he.value() == 0,
            r.band_2g_upper_edge_backoff_dsss.value() == 0,
            r.band_2g_upper_edge_backoff_ht.value() == 0,
            r.band_2g_upper_edge_backoff_he.value() == 0,
            r.band_unii_1_lower_edge_backoff_ht.value() == 0,
            r.band_unii_1_lower_edge_backoff_he.value() == 0,
            r.band_unii_1_upper_edge_backoff_ht.value() == 0,
            r.band_unii_1_upper_edge_backoff_he.value() == 0,
            r.band_unii_2a_lower_edge_backoff_ht.value() == 0,
            r.band_unii_2a_lower_edge_backoff_he.value() == 0,
            r.band_unii_2a_upper_edge_backoff_ht.value() == 0,
            r.band_unii_2a_upper_edge_backoff_he.value() == 0,
            r.band_unii_2c_lower_edge_backoff_ht.value() == 0,
            r.band_unii_2c_lower_edge_backoff_he.value() == 0,
            r.band_unii_2c_upper_edge_backoff_ht.value() == 0,
            r.band_unii_2c_upper_edge_backoff_he.value() == 0,
            r.band_unii_3_lower_edge_backoff_ht.value() == 0,
            r.band_unii_3_lower_edge_backoff_he.value() == 0,
            r.band_unii_3_upper_edge_backoff_ht.value() == 0,
            r.band_unii_3_upper_edge_backoff_he.value() == 0,
            r.band_unii_4_lower_edge_backoff_ht.value() == 0,
            r.band_unii_4_lower_edge_backoff_he.value() == 0,
            r.band_unii_4_upper_edge_backoff_ht.value() == 0,
            r.band_unii_4_upper_edge_backoff_he.value() == 0,
    {
        RfParameters {
            pcb_loss_2g: BoundedU8::default(),
            pcb_loss_5g_band1: BoundedU8::default(),
            pcb_loss_5g_band2: BoundedU8::default(),
            pcb_loss_5g_band3: BoundedU8::default(),
            ant_gain_2g: BoundedU8::default(),
            ant_gain_5g_band1: BoundedU8::default(),
            ant_gain_5g_band2: BoundedU8::default(),
            ant_gain_5g_band3: BoundedU8::default(),
            band_2g_lower_edge_backoff_dsss: BoundedU8::default(),
            band_2g_lower_edge_backoff_ht: BoundedU8::default(),
            band_2g_lower_edge_backoff_he: BoundedU8::default(),
            band_2g_upper_edge_backoff_dsss: BoundedU8::default(),
            band_2g_upper_edge_backoff_ht: BoundedU8::default(),
            band_2g_upper_edge_backoff_he: BoundedU8::default(),
            band_unii_1_lower_edge_backoff_ht: BoundedU8::default(),
            band_unii_1_lower_edge_backoff_he: BoundedU8::default(),
            band_unii_1_upper_edge_backoff_ht: BoundedU8::default(),
            band_unii_1_upper_edge_backoff_he: BoundedU8::default(),
            band_unii_2a_lower_edge_backoff_ht: BoundedU8::default(),
            band_unii_2a_lower_edge_backoff_he: BoundedU8::default(),
            band_unii_2a_upper_edge_backoff_ht: BoundedU8::default(),
            band_unii_2a_upper_edge_backoff_he: BoundedU8::default(),
            band_unii_2c_lower_edge_backoff_ht: BoundedU8::default(),
            band_unii_2c_lower_edge_backoff_he: BoundedU8::default(),
            band_unii_2c_upper_edge_backoff_ht: BoundedU8::default(),
            band_unii_2c_upper_edge_backoff_he: BoundedU8::default(),
            band_unii_3_lower_edge_backoff_ht: BoundedU8::default(),
            band_unii_3_lower_edge_backoff_he: BoundedU8::default(),
            band_unii_3_upper_edge_backoff_ht: BoundedU8::default(),
            band_unii_3_upper_edge_backoff_he: BoundedU8::default(),
            band_unii_4_lower_edge_backoff_ht: BoundedU8::default(),
            band_unii_4_lower_edge_backoff_he: BoundedU8::default(),
            band_unii_4_upper_edge_backoff_ht: BoundedU8::default(),
            band_unii_4_upper_edge_backoff_he: BoundedU8::default(),
        }
    }
}

impl RfParameters {
    /// The calibration bytes in the order the firmware reads them: edge
    /// backoffs, antenna gains, PCB losses.
    pub open spec fn bytes_spec(&self) -> Seq<u8> {
        seq![
            self.band_2g_lower_edge_backoff_dsss.value(),
            self.band_2g_lower_edge_backoff_ht.value(),
            self.band_2g_lower_edge_backoff_he.value(),
            self.band_2g_upper_edge_backoff_dsss.value(),
            self.band_2g_upper_edge_backoff_ht.value(),
            self.band_2g_upper_edge_backoff_he.value(),
            self.band_unii_1_lower_edge_backoff_ht.value(),
            self.band_unii_1_lower_edge_backoff_he.value(),
            self.band_unii_1_upper_edge_backoff_ht.value(),
            self.band_unii_1_upper_edge_backoff_he.value(),
            self.band_unii_2a_lower_edge_backoff_ht.value(),
            self.band_unii_2a_lower_edge_backoff_he.value(),
            self.band_unii_2a_upper_edge_backoff_ht.value(),
            self.band_unii_2a_upper_edge_backoff_he.value(),
            self.band_unii_2c_lower_edge_backoff_ht.value(),
            self.band_unii_2c_lower_edge_backoff_he.value(),
            self.band_unii_2c_upper_edge_backoff_ht.value(),
            self.band_unii_2c_upper_edge_backoff_he.value(),
            self.band_unii_3_lower_edge_backoff_ht.value(),
            self.band_unii_3_lower_edge_backoff_he.value(),
            self.band_unii_3_upper_edge_backoff_ht.value(),
            self.band_unii_3_upper_edge_backoff_he.value(),
            self.band_unii_4_lower_edge_backoff_ht.value(),
            self.band_unii_4_lower_edge_backoff_he.value(),
            self.band_unii_4_upper_edge_backoff_ht.value(),
            self.band_unii_4_upper_edge_backoff_he.value(),
            self.ant_gain_2g.value(),
            self.ant_gain_5g_band1.value(),
            self.ant_gain_5g_band2.value(),
            self.ant_gain_5g_band3.value(),
            self.pcb_loss_2g.value(),
            self.pcb_loss_5g_band1.value(),
            self.pcb_loss_5g_band2.value(),
            self.pcb_loss_5g_band3.value(),
        ]
    }

    /// The calibration bytes, each within its field's bounds.
    pub fn bytes(&self) -> (r: [u8; 34])
        ensures
            r@ == self.bytes_spec(),
            forall|i: int| 0 <= i < 26 ==> #[trigger] r@[i] <= 10,
            forall|i: int| 26 <= i < 30 ==> #[trigger] r@[i] <= 6,
            forall|i: int| 30 <= i < 34 ==> #[trigger] r@[i] <= 4,
    {
        let v0 = self.band_2g_lower_edge_backoff_dsss.get();
        let v1 = self.band_2g_lower_edge_backoff_ht.get();
        let v2 = self.band_2g_lower_edge_backoff_he.get();
        let v3 = self.band_2g_upper_edge_backoff_dsss.get();
        let v4 = self.band_2g_upper_edge_backoff_ht.get();
        let v5 = self.band_2g_upper_edge_backoff_he.get();
        let v6 = self.band_unii_1_lower_edge_backoff_ht.get();
        let v7 = self.band_unii_1_lower_edge_backoff_he.get();
        let v8 = self.band_unii_1_upper_edge_backoff_ht.get();
        let v9 = self.band_unii_1_upper_edge_backoff_he.get();
        let v10 = self.band_unii_2a_lower_edge_backoff_ht.get();
        let v11 = self.band_unii_2a_lower_edge_backoff_he.get();
        let v12 = self.band_unii_2a_upper_edge_backoff_ht.get();
        let v13 = self.band_unii_2a_upper_edge_backoff_he.get();
        let v14 = self.band_unii_2c_lower_edge_backoff_ht.get();
        let v15 = self.band_unii_2c_lower_edge_backoff_he.get();
        let v16 = self.band_unii_2c_upper_edge_backoff_ht.get();
        let v17 = self.band_unii_2c_upper_edge_backoff_he.get();
        let v18 = self.band_unii_3_lower_edge_backoff_ht.get();
        let v19 = self.band_unii_3_lower_edge_backoff_he.get();
        let v20 = self.band_unii_3_upper_edge_backoff_ht.get();
        let v21 = self.band_unii_3_upper_edge_backoff_he.get();
        let v22 = self.band_unii_4_lower_edge_backoff_ht.get();
        let v23 = self.band_unii_4_lower_edge_backoff_he.get();
        let v24 = self.band_unii_4_upper_edge_backoff_ht.get();
        let v25 = self.band_unii_4_upper_edge_backoff_he.get();
        let v26 = self.ant_gain_2g.get();
        let v27 = self.ant_gain_5g_band1.get();
        let v28 = self.ant_gain_5g_band2.get();
        let v29 = self.ant_gain_5g_band3.get();
        let v30 = self.pcb_loss_2g.get();
        let v31 = self.pcb_loss_5g_band1.get();
        let v32 = self.pcb_loss_5g_band2.get();
        let v33 = self.pcb_loss_5g_band3.get();
        let r = [v0, v1, v2, v3, v4, v5, v6, v7, v8, v9, v10, v11, v12, v13, v14, v15, v16, v17, v18, v19, v20, v21, v22, v23, v24, v25, v26, v27, v28, v29, v30, v31, v32, v33];
        assert(r@ =~= self.bytes_spec());
        r
    }

    /// Writes the calibration bytes to the start of `out`; the rest of `out`
    /// is left as it was.
    pub fn populate_slice(&self, out: &mut [u8])
        requires
            old(out)@.len() >= RF_PARAM_LENGTH,
        ensures
            final(out)@.len() == old(out)@.len(),
            final(out)@.subrange(0, RF_PARAM_LENGTH as int) == self.bytes_spec(),
            final(out)@.subrange(RF_PARAM_LENGTH as int, old(out)@.len() as int) == old(out)@.subrange(
                RF_PARAM_LENGTH as int,
                old(out)@.len() as int,
            ),
            forall|i: int| 0 <= i < 26 ==> #[trigger] final(out)@[i] <= 10,
            forall|i: int| 26 <= i < 30 ==> #[trigger] final(out)@[i] <= 6,
            forall|i: int| 30 <= i < 34 ==> #[trigger] final(out)@[i] <= 4,
    {
        let b = self.bytes();
        let mut i: usize = 0;
        while i < RF_PARAM_LENGTH
            invariant
                0 <= i <= RF_PARAM_LENGTH,
                b@ == self.bytes_spec(),
                b@.len() == RF_PARAM_LENGTH,
                old(out)@.len() >= RF_PARAM_LENGTH,
                out@.len() == old(out)@.len(),
                forall|k: int| 0 <= k < 26 ==> #[trigger] b@[k] <= 10,
                forall|k: int| 26 <= k < 30 ==> #[trigger] b@[k] <= 6,
                forall|k: int| 30 <= k < 34 ==> #[trigger] b@[k] <= 4,
                forall|k: int| 0 <= k < i ==> #[trigger] out@[k] == b@[k],
                forall|k: int| RF_PARAM_LENGTH <= k < old(out)@.len() ==> #[trigger] out@[k] == old(out)@[k],
            decreases RF_PARAM_LENGTH - i,
        {
            out[i] = b[i];
            i = i + 1;
        }
        assert(out@.subrange(0, RF_PARAM_LENGTH as int) =~= self.bytes_spec());
        assert(out@.subrange(RF_PARAM_LENGTH as int, old(out)@.len() as int) =~= old(out)@.subrange(
            RF_PARAM_LENGTH as int,
            old(out)@.len() as int,
        ));
    }
}

} // verus!

verus! {

/// Transmit power ceilings per band and rate, in quarter dBm.
#[allow(non_camel_case_types)]
#[derive(Debug, Clone, Copy, PartialEq, Eq, Structural)]
pub struct nrf_wifi_tx_pwr_ceil {
    pub max_dsss_pwr: i8,
    pub max_lb_mcs7_pwr: i8,
    pub max_lb_mcs0_pwr: i8,
    pub max_hb_low_chan_mcs7_pwr: i8,
    pub max_hb_mid_chan_mcs7_pwr: i8,
    pub max_hb_high_chan_mcs7_pwr: i8,
    pub max_hb_low_chan_mcs0_pwr: i8,
    pub max_hb_mid_chan_mcs0_pwr: i8,
    pub max_hb_high_chan_mcs0_pwr: i8,
}

/// Configured transmit power ceilings per band and rate, in quarter dBm.
#[allow(non_camel_case_types)]
#[derive(Debug, Clone, Copy, PartialEq, Eq, Structural)]
pub struct nrf_wifi_tx_pwr_ceil_params {
    pub max_pwr_2g_dsss: u8,
    pub max_pwr_2g_mcs0: u8,
    pub max_pwr_2g_mcs7: u8,
    pub max_pwr_5g_low_mcs0: u8,
    pub max_pwr_5g_low_mcs7: u8,
    pub max_pwr_5g_mid_mcs0: u8,
    pub max_pwr_5g_mid_mcs7: u8,
    pub max_pwr_5g_high_mcs0: u8,
    pub max_pwr_5g_high_mcs7: u8,
}

/// The RF parameter block handed to the firmware at initialisation.
#[allow(non_camel_case_types)]
pub struct nrf_wifi_phy_rf_params {
    pub xo_freq_offset: u8,
    pub pd_adjust_val: [i8; 4],
    pub syst_tx_pwr_offset: [i8; 4],
    pub max_pwr_ceil: nrf_wifi_tx_pwr_ceil,
    pub rx_gain_offset: [i8; 4],
    pub temp_volt_backoff: [i8; 10],
    pub phy_params: Vec<u8>,
}

/// The value of an ASCII hex digit; zero for any other byte.
pub open spec fn hex_digit_spec(c: u8) -> u8 {
    if 0x30 <= c <= 0x39 {
        (c - 0x30) as u8
    } else if 0x61 <= c <= 0x66 {
        (10 + (c - 0x61)) as u8
    } else if 0x41 <= c <= 0x46 {
        (10 + (c - 0x41)) as u8
    } else {
        0
    }
}

/// The value of an ASCII hex digit; zero for any other byte.
pub fn from_ascii_hex_digit(ascii_hex: u8) -> (r: u8)
    ensures
        r == hex_digit_spec(ascii_hex),
        r < 16,
{
    if 0x30 <= ascii_hex && ascii_hex <= 0x39 {
        ascii_hex - 0x30
    } else if 0x61 <= ascii_hex && ascii_hex <= 0x66 {
        10 + (ascii_hex - 0x61)
    } else if 0x41 <= ascii_hex && ascii_hex <= 0x46 {
        10 + (ascii_hex - 0x41)
    } else {
        0
    }
}

/// The bytes a string of hex digit pairs stands for.
pub open spec fn hex_decode_spec(h: Seq<u8>) -> Seq<u8> {
    Seq::new((h.len() / 2) as nat, |i: int| (hex_digit_spec(h[2 * i]) * 16 + hex_digit_spec(h[2 * i + 1])) as u8)
}

/// Decodes a string of hex digit pairs; a trailing lone digit is ignored.
pub fn hex_decode(h: &[u8]) -> (r: Vec<u8>)
    ensures
        r@ == hex_decode_spec(h@),
{
    let n = h.len() / 2;
    assert(h@.len() == h.len());
    let mut r: Vec<u8> = Vec::new();
    let mut i: usize = 0;
    while i < n
        invariant
            0 <= i <= n,
            n == h@.len() / 2,
            2 * n <= h@.len() <= usize::MAX,
            r@ == hex_decode_spec(h@).subrange(0, i as int),
        decreases n - i,
    {
        let upper = from_ascii_hex_digit(h[2 * i]);
        let lower = from_ascii_hex_digit(h[2 * i + 1]);
        r.push(upper * 16 + lower);
        i = i + 1;
        assert(r@ =~= hex_decode_spec(h@).subrange(0, i as int));
    }
    assert(r@ =~= hex_decode_spec(h@));
    r
}

/// The package's default transmit power ceilings.
pub open spec fn default_ceiling_spec(package_type: u32) -> nrf_wifi_tx_pwr_ceil {
    if package_type == CSP_PACKAGE_INFO {
        nrf_wifi_tx_pwr_ceil {
            max_dsss_pwr: 80,
            max_lb_mcs7_pwr: 60,
            max_lb_mcs0_pwr: 60,
            max_hb_low_chan_mcs7_pwr: 48,
            max_hb_mid_chan_mcs7_pwr: 48,
            max_hb_high_chan_mcs7_pwr: 44,
            max_hb_low_chan_mcs0_pwr: 56,
            max_hb_mid_chan_mcs0_pwr: 56,
            max_hb_high_chan_mcs0_pwr: 52,
        }
    } else {
        nrf_wifi_tx_pwr_ceil {
            max_dsss_pwr: 84,
            max_lb_mcs7_pwr: 64,
            max_lb_mcs0_pwr: 64,
            max_hb_low_chan_mcs7_pwr: 52,
            max_hb_mid_chan_mcs7_pwr: 52,
            max_hb_high_chan_mcs7_pwr: 48,
            max_hb_low_chan_mcs0_pwr: 60,
            max_hb_mid_chan_mcs0_pwr: 60,
            max_hb_high_chan_mcs0_pwr: 56,
        }
    }
}

/// The package's default transmit power ceilings.
pub fn default_ceiling(package_type: u32) -> (r: nrf_wifi_tx_pwr_ceil)
    ensures
        r == default_ceiling_spec(package_type),
{
    if package_type == CSP_PACKAGE_INFO {
        nrf_wifi_tx_pwr_ceil {
            max_dsss_pwr: 80,
            max_lb_mcs7_pwr: 60,
            max_lb_mcs0_pwr: 60,
            max_hb_low_chan_mcs7_pwr: 48,
            max_hb_mid_chan_mcs7_pwr: 48,
            max_hb_high_chan_mcs7_pwr: 44,
            max_hb_low_chan_mcs0_pwr: 56,
            max_hb_mid_chan_mcs0_pwr: 56,
            max_hb_high_chan_mcs0_pwr: 52,
        }
    } else {
        nrf_wifi_tx_pwr_ceil {
            max_dsss_pwr: 84,
            max_lb_mcs7_pwr: 64,
            max_lb_mcs0_pwr: 64,
            max_hb_low_chan_mcs7_pwr: 52,
            max_hb_mid_chan_mcs7_pwr: 52,
            max_hb_high_chan_mcs7_pwr: 48,
            max_hb_low_chan_mcs0_pwr: 60,
            max_hb_mid_chan_mcs0_pwr: 60,
            max_hb_high_chan_mcs0_pwr: 56,
        }
    }
}

/// The package's default system power offsets, one per band.
pub open spec fn default_syst_offset_spec(package_type: u32) -> Seq<i8> {
    if package_type == CSP_PACKAGE_INFO {
        seq![1i8, 1, 1, 1]
    } else {
        seq![3i8, 3, 3, 3]
    }
}

/// The package's default temperature and voltage backoffs: highest and lowest
/// chip temperature, then the backoffs by band and condition.
pub open spec fn default_temp_volt_spec(package_type: u32) -> Seq<i8> {
    if package_type == CSP_PACKAGE_INFO {
        seq![75i8, -40i8, 2, 3, 2, 3, 3, 3, 4, 4]
    } else {
        seq![80i8, -40i8, 2, 3, 2, 3, 3, 3, 4, 4]
    }
}

/// The fields of `r` that are the package's defaults whatever the OTP and
/// configuration: power detector adjustments and receive gain offsets (zero),
/// system power offsets, temperature and voltage backoffs.
pub open spec fn package_defaults(r: nrf_wifi_phy_rf_params, package_type: u32) -> bool {
    &&& r.pd_adjust_val@ == seq![0i8, 0, 0, 0]
    &&& r.rx_gain_offset@ == seq![0i8, 0, 0, 0]
    &&& r.syst_tx_pwr_offset@ == default_syst_offset_spec(package_type)
    &&& r.temp_volt_backoff@ == default_temp_volt_spec(package_type)
}

/// The package's default crystal offset.
pub open spec fn default_xo_spec(package_type: u32) -> u8 {
    if package_type == CSP_PACKAGE_INFO {
        0x28
    } else {
        0x2A
    }
}

/// The default PHY part of the RF parameter block, as hex digit pairs: no
/// adjustment anywhere.
pub fn default_phy_params_hex() -> (r: Vec<u8>)
    ensures
        r@.len() == 2 * PHY_PARAMS_LEN,
        forall|i: int| 0 <= i < r@.len() ==> #[trigger] r@[i] == 0x30u8,
{
    let mut r: Vec<u8> = Vec::new();
    let mut i: usize = 0;
    while i < 2 * PHY_PARAMS_LEN
        invariant
            0 <= i <= 2 * PHY_PARAMS_LEN,
            r@.len() == i,
            forall|k: int| 0 <= k < i ==> #[trigger] r@[k] == 0x30u8,
        decreases 2 * PHY_PARAMS_LEN - i,
    {
        r.push(0x30u8);
        i = i + 1;
    }
    r
}

impl nrf_wifi_phy_rf_params {
    /// The default RF parameter block of a chip package: crystal offset, power
    /// offsets, ceilings and temperature/voltage backoffs of the package, and
    /// the default PHY table.
    pub fn default_from(package_type: u32) -> (r: nrf_wifi_phy_rf_params)
        ensures
            r.xo_freq_offset == default_xo_spec(package_type),
            r.max_pwr_ceil == default_ceiling_spec(package_type),
            package_defaults(r, package_type),
            r.phy_params@.len() == PHY_PARAMS_LEN,
            forall|i: int| 0 <= i < PHY_PARAMS_LEN ==> #[trigger] r.phy_params@[i] == 0,
    {
        let csp = package_type == CSP_PACKAGE_INFO;
        let hex = default_phy_params_hex();
        let phy_params = hex_decode(hex.as_slice());
        proof {
            assert forall|i: int| 0 <= i < PHY_PARAMS_LEN implies #[trigger] phy_params@[i] == 0 by {
                assert(hex@[2 * i] == 0x30u8 && hex@[2 * i + 1] == 0x30u8);
            }
        }
        let r = nrf_wifi_phy_rf_params {
            xo_freq_offset: if csp {
                0x28
            } else {
                0x2A
            },
            pd_adjust_val: [0, 0, 0, 0],
            syst_tx_pwr_offset: if csp {
                [1, 1, 1, 1]
            } else {
                [3, 3, 3, 3]
            },
            max_pwr_ceil: default_ceiling(package_type),
            rx_gain_offset: [0, 0, 0, 0],
            temp_volt_backoff: if csp {
                [75, -40, 2, 3, 2, 3, 3, 3, 4, 4]
            } else {
                [80, -40, 2, 3, 2, 3, 3, 3, 4, 4]
            },
            phy_params,
        };
        assert(r.pd_adjust_val@ =~= seq![0i8, 0, 0, 0]);
        assert(r.rx_gain_offset@ =~= seq![0i8, 0, 0, 0]);
        assert(r.syst_tx_pwr_offset@ =~= default_syst_offset_spec(package_type));
        assert(r.temp_volt_backoff@ =~= default_temp_volt_spec(package_type));
        r
    }

    /// The 200 bytes of the block: six reserved bytes, crystal offset, power
    /// detector adjustments, system offsets, ceilings, receive gain offsets,
    /// temperature/voltage backoffs with four reserved bytes, the PHY part.
    pub fn to_bytes(&self) -> (r: Vec<u8>)
        requires
            self.phy_params@.len() == PHY_PARAMS_LEN,
        ensures
            r@.len() == NRF_WIFI_RF_PARAMS_SIZE,
            r@[6] == self.xo_freq_offset,
            r@.subrange(15, 24) == ceiling_bytes_spec(*self),
            r@.subrange(NRF_WIFI_RF_PARAMS_CONF_SIZE as int, NRF_WIFI_RF_PARAMS_SIZE as int) == self.phy_params@,
    {
        let mut r: Vec<u8> = Vec::new();
        crate::commands::push_zeros(&mut r, 6);
        r.push(self.xo_freq_offset);
        let mut i: usize = 0;
        while i < 4
            invariant
                0 <= i <= 4,
                r@.len() == 7 + i,
                r@[6] == self.xo_freq_offset,
            decreases 4 - i,
        {
            r.push(self.pd_adjust_val[i] as u8);
            i = i + 1;
        }
        let mut i: usize = 0;
        while i < 4
            invariant
                0 <= i <= 4,
                r@.len() == 11 + i,
                r@[6] == self.xo_freq_offset,
            decreases 4 - i,
        {
            r.push(self.syst_tx_pwr_offset[i] as u8);
            i = i + 1;
        }
        r.push(self.max_pwr_ceil.max_dsss_pwr as u8);
        r.push(self.max_pwr_ceil.max_lb_mcs7_pwr as u8);
        r.push(self.max_pwr_ceil.max_lb_mcs0_pwr as u8);
        r.push(self.max_pwr_ceil.max_hb_low_chan_mcs7_pwr as u8);
        r.push(self.max_pwr_ceil.max_hb_mid_chan_mcs7_pwr as u8);
        r.push(self.max_pwr_ceil.max_hb_high_chan_mcs7_pwr as u8);
        r.push(self.max_pwr_ceil.max_hb_low_chan_mcs0_pwr as u8);
        r.push(self.max_pwr_ceil.max_hb_mid_chan_mcs0_pwr as u8);
        r.push(self.max_pwr_ceil.max_hb_high_chan_mcs0_pwr as u8);
        assert(r@.subrange(15, 24) =~= ceiling_bytes_spec(*self));
        let ghost ceil_part = r@;
        let mut i: usize = 0;
        while i < 4
            invariant
                0 <= i <= 4,
                r@.len() == 24 + i,
                r@.subrange(0, 24) == ceil_part,
            decreases 4 - i,
        {
            r.push(self.rx_gain_offset[i] as u8);
            i = i + 1;
            assert(r@.subrange(0, 24) =~= ceil_part);
        }
        let mut i: usize = 0;
        while i < 10
            invariant
                0 <= i <= 10,
                r@.len() == 28 + i,
                r@.subrange(0, 24) == ceil_part,
            decreases 10 - i,
        {
            r.push(self.temp_volt_backoff[i] as u8);
            i = i + 1;
            assert(r@.subrange(0, 24) =~= ceil_part);
        }
        crate::commands::push_zeros(&mut r, 4);
        crate::commands::push_bytes(&mut r, self.phy_params.as_slice());
        assert(r@.subrange(0, 24) =~= ceil_part.subrange(0, 24));
        assert(r@[6] == r@.subrange(0, 24)[6]);
        assert(r@.subrange(15, 24) =~= r@.subrange(0, 24).subrange(15, 24));
        assert(r@.subrange(NRF_WIFI_RF_PARAMS_CONF_SIZE as int, NRF_WIFI_RF_PARAMS_SIZE as int) =~= self.phy_params@);
        r
    }
}

/// The ceiling bytes of a block, in field order.
pub open spec fn ceiling_bytes_spec(p: nrf_wifi_phy_rf_params) -> Seq<u8> {
    seq![
            p.max_pwr_ceil.max_dsss_pwr as u8,
            p.max_pwr_ceil.max_lb_mcs7_pwr as u8,
            p.max_pwr_ceil.max_lb_mcs0_pwr as u8,
            p.max_pwr_ceil.max_hb_low_chan_mcs7_pwr as u8,
            p.max_pwr_ceil.max_hb_mid_chan_mcs7_pwr as u8,
            p.max_pwr_ceil.max_hb_high_chan_mcs7_pwr as u8,
            p.max_pwr_ceil.max_hb_low_chan_mcs0_pwr as u8,
            p.max_pwr_ceil.max_hb_mid_chan_mcs0_pwr as u8,
            p.max_pwr_ceil.max_hb_high_chan_mcs0_pwr as u8,
    ]
}

/// The test-program version held in its OTP word.
pub open spec fn ft_prog_version_spec(otp_word: u32) -> u32 {
    (otp_word & FT_PROG_VER_MASK) >> 16
}

/// The power backoffs of a test-program version: 2.4 GHz DSSS, 2.4 GHz OFDM,
/// 5 GHz low, mid and high band. Unknown versions back off nothing.
pub open spec fn backoffs_spec(version: u32) -> (i8, i8, i8, i8, i8) {
    if version == 1 {
        (0, 0, 0, 0, 0)
    } else if version == 2 {
        (3, 3, 4, 4, 4)
    } else if version == 3 {
        (5, 5, 6, 6, 6)
    } else {
        (0, 0, 0, 0, 0)
    }
}

/// The power backoffs of a test-program version.
pub fn backoffs(version: u32) -> (r: (i8, i8, i8, i8, i8))
    ensures
        r == backoffs_spec(version),
{
    if version == 1 {
        (0, 0, 0, 0, 0)
    } else if version == 2 {
        (3, 3, 4, 4, 4)
    } else if version == 3 {
        (5, 5, 6, 6, 6)
    } else {
        (0, 0, 0, 0, 0)
    }
}

/// A derived ceiling: the lower of the configured and the chip's ceiling,
/// less the backoff, kept to a byte.
pub open spec fn ceiling_spec(configured: u8, chip: i8, backoff: i8) -> i8 {
    let c = configured as i8;
    let m = if c < chip {
        c
    } else {
        chip
    };
    (m - backoff) as i8
}

fn ceiling(configured: u8, chip: i8, backoff: i8) -> (r: i8)
    ensures
        r == ceiling_spec(configured, chip, backoff),
{
    let c = configured as i8;
    let m = if c < chip {
        c
    } else {
        chip
    };
    (m as i16 - backoff as i16) as i8
}

/// The crystal offset after the OTP override: the calibrated value when any
/// OTP flag besides the crystal mask bit is set, the default otherwise.
pub open spec fn xo_spec(package_type: u32, otp_flags: u32, calib_xo: u32) -> u8 {
    if otp_flags & !CALIB_XO_FLAG_MASK != 0 {
        calib_xo as u8
    } else {
        default_xo_spec(package_type)
    }
}

/// The RF parameter block derived from a package type, the test-program
/// OTP word, the OTP flags, the crystal calibration word, the configured
/// ceilings and the calibration bytes `cal`: the package defaults, `cal` in
/// the calibration window of the PHY part and the default (zero) PHY bytes
/// elsewhere, the crystal offset after the OTP override, and each ceiling as
/// the lower of the configured and the chip's value less the backoff of the
/// test-program version for its band.
pub open spec fn rf_params_spec(
    r: nrf_wifi_phy_rf_params,
    package_type: u32,
    ft_prog_word: u32,
    otp_flags: u32,
    calib_xo: u32,
    ceilings: nrf_wifi_tx_pwr_ceil_params,
    cal: Seq<u8>,
) -> bool {
    &&& r.phy_params@.len() == PHY_PARAMS_LEN
    &&& r.phy_params@.subrange(RF_PARAM_OFFSET as int, (RF_PARAM_OFFSET + RF_PARAM_LENGTH) as int) == cal
    &&& forall|i: int| 0 <= i < PHY_PARAMS_LEN && !(RF_PARAM_OFFSET <= i < RF_PARAM_OFFSET + RF_PARAM_LENGTH) ==> #[trigger] r.phy_params@[i] == 0
    &&& package_defaults(r, package_type)
    &&& r.xo_freq_offset == xo_spec(package_type, otp_flags, calib_xo)
    &&& ({
        let b = backoffs_spec(ft_prog_version_spec(ft_prog_word));
        &&& r.max_pwr_ceil.max_dsss_pwr == ceiling_spec(ceilings.max_pwr_2g_dsss, default_ceiling_spec(package_type).max_dsss_pwr, b.0)
        &&& r.max_pwr_ceil.max_lb_mcs7_pwr == ceiling_spec(ceilings.max_pwr_2g_mcs7, default_ceiling_spec(package_type).max_lb_mcs7_pwr, b.1)
        &&& r.max_pwr_ceil.max_lb_mcs0_pwr == ceiling_spec(ceilings.max_pwr_2g_mcs0, default_ceiling_spec(package_type).max_lb_mcs0_pwr, b.1)
        &&& r.max_pwr_ceil.max_hb_low_chan_mcs7_pwr == ceiling_spec(ceilings.max_pwr_5g_low_mcs7, default_ceiling_spec(package_type).max_hb_low_chan_mcs7_pwr, b.2)
        &&& r.max_pwr_ceil.max_hb_mid_chan_mcs7_pwr == ceiling_spec(ceilings.max_pwr_5g_mid_mcs7, default_ceiling_spec(package_type).max_hb_mid_chan_mcs7_pwr, b.3)
        &&& r.max_pwr_ceil.max_hb_high_chan_mcs7_pwr == ceiling_spec(ceilings.max_pwr_5g_high_mcs7, default_ceiling_spec(package_type).max_hb_high_chan_mcs7_pwr, b.4)
        &&& r.max_pwr_ceil.max_hb_low_chan_mcs0_pwr == ceiling_spec(ceilings.max_pwr_5g_low_mcs0, default_ceiling_spec(package_type).max_hb_low_chan_mcs0_pwr, b.2)
        &&& r.max_pwr_ceil.max_hb_mid_chan_mcs0_pwr == ceiling_spec(ceilings.max_pwr_5g_mid_mcs0, default_ceiling_spec(package_type).max_hb_mid_chan_mcs0_pwr, b.3)
        &&& r.max_pwr_ceil.max_hb_high_chan_mcs0_pwr == ceiling_spec(ceilings.max_pwr_5g_high_mcs0, default_ceiling_spec(package_type).max_hb_high_chan_mcs0_pwr, b.4)
    })
}

/// Derives the RF parameter block: the package defaults, the calibration
/// bytes written into the PHY part, the OTP crystal override, and each
/// ceiling as the lower of the configured and the chip's value less the
/// backoff of the test-program version for its band.
pub fn derive_rf_parameters(
    package_type: u32,
    ft_prog_word: u32,
    otp_flags: u32,
    calib_xo: u32,
    ceilings: &nrf_wifi_tx_pwr_ceil_params,
    calibration: &RfParameters,
) -> (r: nrf_wifi_phy_rf_params)
    ensures
        rf_params_spec(r, package_type, ft_prog_word, otp_flags, calib_xo, *ceilings, calibration.bytes_spec()),
{
    let mut phy_rf_params = nrf_wifi_phy_rf_params::default_from(package_type);
    let mut buf: [u8; 34] = [0u8; 34];
    calibration.populate_slice(&mut buf);
    let mut i: usize = 0;
    while i < RF_PARAM_LENGTH
        invariant
            0 <= i <= RF_PARAM_LENGTH,
            buf@.subrange(0, RF_PARAM_LENGTH as int) == calibration.bytes_spec(),
            buf@.len() == RF_PARAM_LENGTH,
            phy_rf_params.phy_params@.len() == PHY_PARAMS_LEN,
            phy_rf_params.xo_freq_offset == default_xo_spec(package_type),
            phy_rf_params.max_pwr_ceil == default_ceiling_spec(package_type),
            package_defaults(phy_rf_params, package_type),
            forall|k: int| 0 <= k < i ==> #[trigger] phy_rf_params.phy_params@[RF_PARAM_OFFSET + k] == buf@[k],
            forall|k: int| 0 <= k < PHY_PARAMS_LEN && !(RF_PARAM_OFFSET <= k < RF_PARAM_OFFSET + RF_PARAM_LENGTH) ==> #[trigger] phy_rf_params.phy_params@[k] == 0,
        decreases RF_PARAM_LENGTH - i,
    {
        phy_rf_params.phy_params.set(RF_PARAM_OFFSET + i, buf[i]);
        i = i + 1;
    }
    assert(buf@.subrange(0, RF_PARAM_LENGTH as int) =~= buf@);
    assert forall|k: int| 0 <= k < RF_PARAM_LENGTH implies phy_rf_params.phy_params@.subrange(
        RF_PARAM_OFFSET as int,
        (RF_PARAM_OFFSET + RF_PARAM_LENGTH) as int,
    )[k] == calibration.bytes_spec()[k] by {
        assert(phy_rf_params.phy_params@[RF_PARAM_OFFSET + k] == buf@[k]);
    }
    assert(phy_rf_params.phy_params@.subrange(RF_PARAM_OFFSET as int, (RF_PARAM_OFFSET + RF_PARAM_LENGTH) as int)
        =~= calibration.bytes_spec());
    if otp_flags & !CALIB_XO_FLAG_MASK != 0 {
        phy_rf_params.xo_freq_offset = calib_xo as u8;
    }
    let backoff = backoffs((ft_prog_word & FT_PROG_VER_MASK) >> 16);
        phy_rf_params.max_pwr_ceil.max_dsss_pwr = ceiling(ceilings.max_pwr_2g_dsss, phy_rf_params.max_pwr_ceil.max_dsss_pwr, backoff.0);
        phy_rf_params.max_pwr_ceil.max_lb_mcs7_pwr = ceiling(ceilings.max_pwr_2g_mcs7, phy_rf_params.max_pwr_ceil.max_lb_mcs7_pwr, backoff.1);
        phy_rf_params.max_pwr_ceil.max_lb_mcs0_pwr = ceiling(ceilings.max_pwr_2g_mcs0, phy_rf_params.max_pwr_ceil.max_lb_mcs0_pwr, backoff.1);
        phy_rf_params.max_pwr_ceil.max_hb_low_chan_mcs7_pwr = ceiling(ceilings.max_pwr_5g_low_mcs7, phy_rf_params.max_pwr_ceil.max_hb_low_chan_mcs7_pwr, backoff.2);
        phy_rf_params.max_pwr_ceil.max_hb_mid_chan_mcs7_pwr = ceiling(ceilings.max_pwr_5g_mid_mcs7, phy_rf_params.max_pwr_ceil.max_hb_mid_chan_mcs7_pwr, backoff.3);
        phy_rf_params.max_pwr_ceil.max_hb_high_chan_mcs7_pwr = ceiling(ceilings.max_pwr_5g_high_mcs7, phy_rf_params.max_pwr_ceil.max_hb_high_chan_mcs7_pwr, backoff.4);
        phy_rf_params.max_pwr_ceil.max_hb_low_chan_mcs0_pwr = ceiling(ceilings.max_pwr_5g_low_mcs0, phy_rf_params.max_pwr_ceil.max_hb_low_chan_mcs0_pwr, backoff.2);
        phy_rf_params.max_pwr_ceil.max_hb_mid_chan_mcs0_pwr = ceiling(ceilings.max_pwr_5g_mid_mcs0, phy_rf_params.max_pwr_ceil.max_hb_mid_chan_mcs0_pwr, backoff.3);
        phy_rf_params.max_pwr_ceil.max_hb_high_chan_mcs0_pwr = ceiling(ceilings.max_pwr_5g_high_mcs0, phy_rf_params.max_pwr_ceil.max_hb_high_chan_mcs0_pwr, backoff.4);
    phy_rf_params
}

} // verus!
