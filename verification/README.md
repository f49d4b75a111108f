# teensy4-canfd

A driver for the CAN FD controller (CAN3) of the i.MX RT 1062 on the Teensy 4,
with its logic verified by Verus.

- `src/` is the verified library: the configuration types, the layout of the
  message RAM and the encoding of the control/status and identifier words,
  data length codes, the mailbox configuration sequence, the choice of
  transmit mailboxes, the decoding of received frames and the servicing of
  interrupts. Register accesses are produced as `RegisterAction` values.
- `app/` performs those accesses on the hardware through `imxrt-ral`, holds
  the driver instance shared with the CAN3 interrupt handler, and runs the
  loops that wait on the controller.
- `tests/` exercises the library on concrete configurations and frames.
