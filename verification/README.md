# rs485_bacnet

A BACnet MS/TP to MQTT bridge for RS-485 gateways.

* `src/` is the library, verified with Verus: MS/TP frames and their CRC,
  the master station's token handling, the BACnet object identifier and APDU
  codecs, the bridge's settings, and the bridge's protocol decisions.
* `app/` is the program around it: serial port, MQTT client, trigger files,
  UCI configuration, logging, and the JSON form of values.
* `tests/` exercises the library on concrete inputs.
